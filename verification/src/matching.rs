use vstd::prelude::*;

verus! {

#[verifier::external_type_specification]
#[verifier::external_body]
pub struct ExRegex(regex::Regex);

/// Whether `regex::Regex::new` accepts the pattern under its default
/// configuration (valid syntax, within the default size limit).  A
/// function of the pattern alone.
pub uninterp spec fn regex_ok(pattern: Seq<char>) -> bool;

/// Whether the compiled pattern matches somewhere in the text.
pub uninterp spec fn regex_matches(pattern: Seq<char>, text: Seq<char>) -> bool;

/// The text captured by the group named `taxo` in the leftmost match, or
/// `None` when the pattern has no such group or the group did not
/// participate in the match.
pub uninterp spec fn regex_taxo(pattern: Seq<char>, text: Seq<char>) -> Option<Seq<char>>;

/// The byte offset in the text at which the `taxo` capture starts.
pub uninterp spec fn regex_taxo_start(pattern: Seq<char>, text: Seq<char>) -> int;

/// The byte offset in the text at which the `taxo` capture ends.
pub uninterp spec fn regex_taxo_end(pattern: Seq<char>, text: Seq<char>) -> int;

/// The captured texts of all groups of the leftmost match, the whole
/// match first; `None` for groups that did not participate.
pub uninterp spec fn regex_groups(pattern: Seq<char>, text: Seq<char>) -> Seq<Option<Seq<char>>>;

/// The text with the leftmost match of the pattern replaced by the
/// expansion of the replacement template.
pub uninterp spec fn regex_replaced(pattern: Seq<char>, text: Seq<char>, template: Seq<char>) -> Seq<char>;

/// What `String::from_utf8_lossy` decodes the bytes to.
pub uninterp spec fn lossy_decode(bytes: Seq<u8>) -> Seq<char>;

/// The `taxo` capture of one match: its text and its byte offsets in the
/// matched text.
pub struct TaxoCapture {
    pub text: String,
    pub start: usize,
    pub end: usize,
}

/// The observations the pipeline needs from one regex match.
pub struct MatchData {
    pub taxo: Option<TaxoCapture>,
    pub groups: Vec<Option<String>>,
}

/// A compiled match pattern, remembering the pattern text it was
/// compiled from; contracts about its behaviour are stated over that
/// pattern text.
pub struct CompiledRegex {
    re: regex::Regex,
    pattern: String,
}

impl CompiledRegex {
    /// The pattern this regex was compiled from.
    pub closed spec fn pattern(&self) -> Seq<char> {
        self.pattern@
    }

    /// The pattern text, for messages.
    pub fn pattern_str(&self) -> (r: &str)
        ensures
            r@ == self.pattern(),
    {
        self.pattern.as_str()
    }

    /// Relies on `regex::Regex::new`: compilation succeeds exactly on the
    /// patterns the regex crate accepts under its default configuration.
    #[verifier::external_body]
    pub(crate) fn compile(pattern: &str) -> (r: Option<CompiledRegex>)
        ensures
            r is Some <==> regex_ok(pattern@),
            r matches Some(cr) ==> cr.pattern() == pattern@,
    {
        match regex::Regex::new(pattern) {
            Ok(re) => Some(CompiledRegex { re, pattern: pattern.to_string() }),
            Err(_) => None,
        }
    }

    /// Relies on `regex::Regex::captures` and the accessors
    /// `Captures::name`, `Captures::iter`, `Match::as_str`,
    /// `Match::start` and `Match::end`: the leftmost match and its
    /// capture groups are a function of the pattern and the text alone,
    /// and a capture's start offset is at most its end offset.
    #[verifier::external_body]
    pub(crate) fn captures(&self, text: &str) -> (r: Option<MatchData>)
        ensures
            r is Some <==> regex_matches(self.pattern(), text@),
            r matches Some(m) ==> {
                &&& m.groups.deep_view() == regex_groups(self.pattern(), text@)
                &&& match m.taxo {
                    Some(t) => {
                        &&& regex_taxo(self.pattern(), text@) == Some(t.text@)
                        &&& t.start as int == regex_taxo_start(self.pattern(), text@)
                        &&& t.end as int == regex_taxo_end(self.pattern(), text@)
                        &&& t.start <= t.end
                    },
                    None => regex_taxo(self.pattern(), text@) is None,
                }
            },
    {
        let caps = match self.re.captures(text) {
            Some(c) => c,
            None => return None,
        };
        let taxo = caps.name("taxo").map(|m| TaxoCapture {
            text: m.as_str().to_string(),
            start: m.start(),
            end: m.end(),
        });
        let groups = caps.iter().map(|g| g.map(|m| m.as_str().to_string())).collect();
        Some(MatchData { taxo, groups })
    }

    /// Relies on `regex::Regex::replace`: the replacement of the leftmost
    /// match is a function of the pattern, the text and the template
    /// alone.
    #[verifier::external_body]
    pub(crate) fn replace(&self, text: &str, template: &str) -> (r: String)
        ensures
            r@ == regex_replaced(self.pattern(), text@, template@),
    {
        self.re.replace(text, template).into_owned()
    }
}

/// Relies on `String::from_utf8_lossy`: the decoding is a function of
/// the bytes alone, and no bytes decode to no characters.
#[verifier::external_body]
pub(crate) fn utf8_lossy(bytes: &Vec<u8>) -> (r: String)
    ensures
        r@ == lossy_decode(bytes@),
        bytes@.len() == 0 ==> r@.len() == 0,
{
    String::from_utf8_lossy(bytes.as_slice()).into_owned()
}

} // verus!
