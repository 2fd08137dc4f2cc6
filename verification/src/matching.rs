use crate::patterns::Pattern;
use vstd::prelude::*;

verus! {

#[verifier::external_type_specification]
#[verifier::external_body]
pub struct ExRegex(regex::Regex);

/// Whether `regex::Regex::new` accepts the pattern text: it compiles exactly
/// the valid regular expressions that fit the default size limit, a fact of
/// the pattern text alone.
pub uninterp spec fn regex_ok(pat: Seq<char>) -> bool;

/// Whether the regular expression compiled from `pat` matches anywhere in
/// `line`, as `regex::Regex::is_match` decides it: a fact of the two texts
/// alone.
pub uninterp spec fn regex_match(pat: Seq<char>, line: Seq<char>) -> bool;

/// The Unicode lowercasing of a text, as `str::to_lowercase` computes it:
/// a fact of the characters alone.
pub uninterp spec fn lower_of(s: Seq<char>) -> Seq<char>;

/// Relies on `str::to_lowercase`: the result depends on the characters alone.
#[verifier::external_body]
pub fn lowercase(s: &str) -> (r: String)
    ensures
        r@ == lower_of(s@),
{
    s.to_lowercase()
}

/// A ghost record of one rule as the contracts speak of it: its identifier
/// and the text its matcher was compiled from.
pub ghost struct PatternView {
    pub id: u32,
    pub pat: Seq<char>,
}

/// One rule with its matcher compiled, ready to be applied to any number of
/// lines by any number of workers.
pub struct CompiledPattern {
    id: u32,
    re: regex::Regex,
    src: &'static str,
}

impl CompiledPattern {
    /// The rule as the contracts speak of it: identifier and pattern text.
    pub closed spec fn model(self) -> PatternView {
        PatternView { id: self.id, pat: self.src@ }
    }

    /// The identifier of the rule this matcher was compiled from.
    pub fn pattern_id(&self) -> (r: u32)
        ensures
            r == self.model().id,
    {
        self.id
    }

    /// Relies on `regex::Regex::new`: it returns `Ok` exactly when the
    /// pattern text is a regular expression it accepts, and the compiled
    /// value then matches as that text describes.
    #[verifier::external_body]
    pub fn compile(p: &Pattern) -> (r: Option<CompiledPattern>)
        ensures
            r is Some <==> regex_ok(p.pattern@),
            r matches Some(c) ==> c.model() == (PatternView { id: p.id, pat: p.pattern@ }),
    {
        match regex::Regex::new(p.pattern) {
            Ok(re) => Some(CompiledPattern { id: p.id, re, src: p.pattern }),
            Err(_) => None,
        }
    }

    /// Relies on `regex::Regex::is_match`: true exactly when the compiled
    /// pattern matches somewhere in the line; the result depends on the
    /// pattern text and the line alone.
    #[verifier::external_body]
    pub fn is_match(&self, line: &str) -> (r: bool)
        ensures
            r == regex_match(self.model().pat, line@),
    {
        self.re.is_match(line)
    }
}

impl DeepView for CompiledPattern {
    type V = PatternView;

    open spec fn deep_view(&self) -> PatternView {
        self.model()
    }
}

/// Compiles the whole table before any scanning starts. Returns `None` as
/// soon as one rule's text is rejected, so a malformed table fails fast at
/// construction and never mid-scan.
pub fn compile_patterns(ps: &Vec<Pattern>) -> (r: Option<Vec<CompiledPattern>>)
    ensures
        r is Some <==> (forall|i: int| 0 <= i < ps@.len() ==> regex_ok(#[trigger] ps@[i].pattern@)),
        r matches Some(cs) ==> cs@.len() == ps@.len() && (forall|i: int|
            0 <= i < ps@.len() ==> (#[trigger] cs@[i]).model() == (PatternView {
                id: ps@[i].id,
                pat: ps@[i].pattern@,
            })),
{
    let mut cs: Vec<CompiledPattern> = Vec::new();
    let mut i: usize = 0;
    while i < ps.len()
        invariant
            i <= ps@.len(),
            cs@.len() == i,
            forall|j: int| 0 <= j < i ==> regex_ok(#[trigger] ps@[j].pattern@),
            forall|j: int|
                0 <= j < i ==> (#[trigger] cs@[j]).model() == (PatternView {
                    id: ps@[j].id,
                    pat: ps@[j].pattern@,
                }),
        decreases ps@.len() - i,
    {
        match CompiledPattern::compile(&ps[i]) {
            Some(c) => {
                cs.push(c);
            },
            None => {
                return None;
            },
        }
        i += 1;
    }
    Some(cs)
}

} // verus!
