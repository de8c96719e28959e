//! Easing curve descriptors: `<family>:<qualifier>` text resolved to a curve.

use vstd::prelude::*;

verus! {

/// One of the standard easing families.
#[derive(Clone, Copy, Debug, PartialEq, Eq, Structural)]
pub enum EaseFamily {
    Linear,
    Quad,
    Cubic,
    Quart,
    Quint,
    Expo,
    Sine,
    Circ,
    Back,
    Elastic,
    Bounce,
}

/// Which end of the sweep the family's acceleration applies to.
#[derive(Clone, Copy, Debug, PartialEq, Eq, Structural)]
pub enum EaseMode {
    In,
    Out,
    InOut,
}

/// A resolved easing curve: a family and a qualifier.
#[derive(Clone, Copy, Debug, PartialEq, Eq, Structural)]
pub struct Ease {
    pub family: EaseFamily,
    pub mode: EaseMode,
}

/// Why an easing descriptor was rejected; each carries the offending text.
#[derive(Debug)]
pub enum EaseError {
    /// There is no `:` between family and qualifier.
    MissingSeparator(Vec<char>),
    /// The family name is not known.
    UnknownFamily(Vec<char>),
    /// The qualifier is none of `in`, `out`, `inout` and their short forms.
    UnknownQualifier(Vec<char>),
}

/// `EaseError` with its text as a sequence.
pub enum EaseErrorView {
    MissingSeparator(Seq<char>),
    UnknownFamily(Seq<char>),
    UnknownQualifier(Seq<char>),
}

impl View for EaseError {
    type V = EaseErrorView;

    open spec fn view(&self) -> EaseErrorView {
        match self {
            EaseError::MissingSeparator(t) => EaseErrorView::MissingSeparator(t@),
            EaseError::UnknownFamily(t) => EaseErrorView::UnknownFamily(t@),
            EaseError::UnknownQualifier(t) => EaseErrorView::UnknownQualifier(t@),
        }
    }
}

pub open spec fn result_view(r: Result<Ease, EaseError>) -> Result<Ease, EaseErrorView> {
    match r {
        Ok(e) => Ok(e),
        Err(e) => Err(e@),
    }
}

/// The family that a (lowercase) name or synonym denotes.
pub open spec fn family_of(t: Seq<char>) -> Option<EaseFamily> {
    if t == "back"@ {
        Some(EaseFamily::Back)
    } else if t == "ela"@ || t == "elastic"@ {
        Some(EaseFamily::Elastic)
    } else if t == "bounce"@ {
        Some(EaseFamily::Bounce)
    } else if t == "lin"@ || t == "linear"@ {
        Some(EaseFamily::Linear)
    } else if t == "quad"@ || t == "quadratic"@ {
        Some(EaseFamily::Quad)
    } else if t == "cube"@ || t == "cubic"@ {
        Some(EaseFamily::Cubic)
    } else if t == "quart"@ || t == "quartic"@ {
        Some(EaseFamily::Quart)
    } else if t == "quint"@ || t == "quintic"@ {
        Some(EaseFamily::Quint)
    } else if t == "exp"@ || t == "expo"@ || t == "exponential"@ {
        Some(EaseFamily::Expo)
    } else if t == "sin"@ || t == "sine"@ {
        Some(EaseFamily::Sine)
    } else if t == "circ"@ || t == "circle"@ || t == "circular"@ {
        Some(EaseFamily::Circ)
    } else {
        None
    }
}

/// The mode that a (lowercase) qualifier denotes.
pub open spec fn mode_of(q: Seq<char>) -> Option<EaseMode> {
    if q == "i"@ || q == "in"@ {
        Some(EaseMode::In)
    } else if q == "o"@ || q == "out"@ {
        Some(EaseMode::Out)
    } else if q == "io"@ || q == "inout"@ || q == "in_out"@ {
        Some(EaseMode::InOut)
    } else {
        None
    }
}

/// Position of the first `:` in `t`.
pub open spec fn colon_index(t: Seq<char>) -> Option<nat>
    decreases t.len(),
{
    if t.len() == 0 {
        None
    } else if t[0] == ':' {
        Some(0)
    } else {
        match colon_index(t.drop_first()) {
            Some(i) => Some(i + 1),
            None => None,
        }
    }
}

/// What a normalized descriptor resolves to: split at the first `:`, then
/// the family is looked up before the qualifier.
pub open spec fn resolve_spec(t: Seq<char>) -> Result<Ease, EaseErrorView> {
    match colon_index(t) {
        None => Err(EaseErrorView::MissingSeparator(t)),
        Some(i) => {
            let fam = t.subrange(0, i as int);
            let q = t.subrange((i + 1) as int, t.len() as int);
            match family_of(fam) {
                None => Err(EaseErrorView::UnknownFamily(fam)),
                Some(f) => match mode_of(q) {
                    None => Err(EaseErrorView::UnknownQualifier(q)),
                    Some(m) => Ok(Ease { family: f, mode: m }),
                },
            }
        }
    }
}

proof fn lemma_colon_index(t: Seq<char>, i: int)
    requires
        0 <= i <= t.len(),
        forall|j: int| 0 <= j < i ==> t[j] != ':',
        i == t.len() || t[i] == ':',
    ensures
        colon_index(t) == if i == t.len() {
            None::<nat>
        } else {
            Some(i as nat)
        },
    decreases t.len(),
{
    if t.len() > 0 && i > 0 {
        lemma_colon_index(t.drop_first(), i - 1);
    }
}

/// The characters of `s`.
pub fn chars_of(s: &str) -> (r: Vec<char>)
    ensures
        r@ == s@,
{
    let mut r: Vec<char> = Vec::new();
    for c in it: s.chars()
        invariant
            it.seq() == s@,
            r@ == it.seq().subrange(0, it.index() as int),
    {
        r.push(c);
    }
    r
}

/// The characters `v[lo..hi]`.
fn slice_chars(v: &Vec<char>, lo: usize, hi: usize) -> (r: Vec<char>)
    requires
        lo <= hi <= v.len(),
    ensures
        r@ == v@.subrange(lo as int, hi as int),
{
    let mut r: Vec<char> = Vec::new();
    let mut i: usize = lo;
    while i < hi
        invariant
            lo <= i <= hi <= v.len(),
            r@ == v@.subrange(lo as int, i as int),
        decreases hi - i,
    {
        r.push(v[i]);
        i = i + 1;
    }
    r
}

/// Whether `v` holds exactly the characters of `w`.
fn is_word(v: &Vec<char>, w: &str) -> (r: bool)
    ensures
        r == (v@ == w@),
{
    let c = chars_of(w);
    if v.len() != c.len() {
        return false;
    }
    let mut i: usize = 0;
    while i < v.len()
        invariant
            v.len() == c.len(),
            c@ == w@,
            i <= v.len(),
            forall|j: int| 0 <= j < i ==> v@[j] == c@[j],
        decreases v.len() - i,
    {
        if v[i] != c[i] {
            return false;
        }
        i = i + 1;
    }
    assert(v@ =~= c@);
    true
}

fn family_from(t: &Vec<char>) -> (r: Option<EaseFamily>)
    ensures
        r == family_of(t@),
{
    if is_word(t, "back") {
        Some(EaseFamily::Back)
    } else if is_word(t, "ela") || is_word(t, "elastic") {
        Some(EaseFamily::Elastic)
    } else if is_word(t, "bounce") {
        Some(EaseFamily::Bounce)
    } else if is_word(t, "lin") || is_word(t, "linear") {
        Some(EaseFamily::Linear)
    } else if is_word(t, "quad") || is_word(t, "quadratic") {
        Some(EaseFamily::Quad)
    } else if is_word(t, "cube") || is_word(t, "cubic") {
        Some(EaseFamily::Cubic)
    } else if is_word(t, "quart") || is_word(t, "quartic") {
        Some(EaseFamily::Quart)
    } else if is_word(t, "quint") || is_word(t, "quintic") {
        Some(EaseFamily::Quint)
    } else if is_word(t, "exp") || is_word(t, "expo") || is_word(t, "exponential") {
        Some(EaseFamily::Expo)
    } else if is_word(t, "sin") || is_word(t, "sine") {
        Some(EaseFamily::Sine)
    } else if is_word(t, "circ") || is_word(t, "circle") || is_word(t, "circular") {
        Some(EaseFamily::Circ)
    } else {
        None
    }
}

fn mode_from(q: &Vec<char>) -> (r: Option<EaseMode>)
    ensures
        r == mode_of(q@),
{
    if is_word(q, "i") || is_word(q, "in") {
        Some(EaseMode::In)
    } else if is_word(q, "o") || is_word(q, "out") {
        Some(EaseMode::Out)
    } else if is_word(q, "io") || is_word(q, "inout") || is_word(q, "in_out") {
        Some(EaseMode::InOut)
    } else {
        None
    }
}

/// Resolves a descriptor that is already trimmed and lowercase.
pub fn resolve_ease(t: &str) -> (r: Result<Ease, EaseError>)
    ensures
        result_view(r) == resolve_spec(t@),
{
    let v = chars_of(t);
    let mut i: usize = 0;
    while i < v.len() && v[i] != ':'
        invariant
            v@ == t@,
            i <= v.len(),
            forall|j: int| 0 <= j < i ==> v@[j] != ':',
        decreases v.len() - i,
    {
        i = i + 1;
    }
    proof {
        lemma_colon_index(t@, i as int);
    }
    if i == v.len() {
        return Err(EaseError::MissingSeparator(v));
    }
    let fam = slice_chars(&v, 0, i);
    let q = slice_chars(&v, i + 1, v.len());
    match family_from(&fam) {
        None => Err(EaseError::UnknownFamily(fam)),
        Some(f) => match mode_from(&q) {
            None => Err(EaseError::UnknownQualifier(q)),
            Some(m) => Ok(Ease { family: f, mode: m }),
        },
    }
}

/// What `str::trim` leaves of a text.
pub uninterp spec fn trimmed(s: Seq<char>) -> Seq<char>;

/// What `str::to_lowercase` makes of a text.
pub uninterp spec fn lower_of(s: Seq<char>) -> Seq<char>;

/// Relies on `str::trim`: drops leading and trailing whitespace, depending on
/// the characters alone.
#[verifier::external_body]
fn trim(s: &str) -> (r: &str)
    ensures
        r@ == trimmed(s@),
{
    s.trim()
}

/// Relies on `str::to_lowercase`: the result depends on the characters alone.
#[verifier::external_body]
fn lowercase(s: &str) -> (r: String)
    ensures
        r@ == lower_of(s@),
{
    s.to_lowercase()
}

/// Parses an easing descriptor `<family>:<qualifier>`, ignoring case and
/// surrounding whitespace.
pub fn parse_ease(s: &str) -> (r: Result<Ease, EaseError>)
    ensures
        result_view(r) == resolve_spec(lower_of(trimmed(s@))),
{
    let t = lowercase(trim(s));
    resolve_ease(t.as_str())
}

} // verus!
