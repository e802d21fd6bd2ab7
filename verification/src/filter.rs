//! The per-record filters: buffer membership, minimum severity, tag pattern
//! inclusion and pattern exclusion. The pid filter lives in its own module.
//!
//! Each filter follows one convention: `filter` returns true when the
//! record is rejected (filtered out), false when it survives.

use vstd::prelude::*;

use crate::log::{sev, spec_level_of, Level, Log, LogV};
use crate::text::{str_eq, string_views};

verus! {

/// A predicate that decides, per record, whether it is filtered out.
///
/// `filter` returns true when the record is rejected. It takes the filter
/// mutably because the pid filter updates its tracked set as a side effect
/// of the records it sees.
pub trait Filter {
    fn filter(&mut self, log: &Log) -> bool;
}

/// Whether any of the strings in `v` reads `target`.
pub fn contains_str(v: &Vec<String>, target: &str) -> (r: bool)
    ensures
        r == string_views(v@).contains(target@),
{
    let n = v.len();
    let mut i: usize = 0;
    while i < n
        invariant
            n == v@.len(),
            0 <= i <= n,
            forall|j: int| 0 <= j < i ==> v@[j]@ != target@,
        decreases n - i,
    {
        if str_eq(v[i].as_str(), target) {
            proof {
                assert(string_views(v@)[i as int] == target@);
            }
            return true;
        }
        i += 1;
    }
    proof {
        assert(forall|j: int| 0 <= j < n ==> string_views(v@)[j] == v@[j]@);
    }
    false
}

/// A record is rejected by the buffer filter when the configured buffer set
/// neither holds the sentinel "all" nor the record's own buffer.
pub open spec fn buffer_rejects(buffers: Seq<Seq<char>>, log: LogV) -> bool {
    !(buffers.contains("all"@) || buffers.contains(log.buffer))
}

/// Accepts records belonging to one of the configured buffers; the sentinel
/// "all" accepts every buffer.
pub struct BufferFilter {
    buffers: Vec<String>,
    all: bool,
}

impl View for BufferFilter {
    type V = Seq<Seq<char>>;

    closed spec fn view(&self) -> Seq<Seq<char>> {
        string_views(self.buffers@)
    }
}

impl BufferFilter {
    #[verifier::type_invariant]
    spec fn wf(self) -> bool {
        self.all == string_views(self.buffers@).contains("all"@)
    }

    /// A buffer filter over the given buffer names.
    pub fn new(buffers: Vec<String>) -> (r: Self)
        ensures
            r@ == string_views(buffers@),
    {
        let all = contains_str(&buffers, "all");
        Self { buffers, all }
    }
}

impl Filter for BufferFilter {
    fn filter(&mut self, log: &Log) -> (r: bool)
        ensures
            r == buffer_rejects(old(self)@, log@),
            final(self)@ == old(self)@,
    {
        proof {
            use_type_invariant(&*self);
        }
        if self.all {
            return false;
        }
        !contains_str(&self.buffers, log.buffer.as_str())
    }
}

/// A record is rejected by the level filter when the severity named by its
/// level token ranks below the configured minimum.
pub open spec fn level_rejects(min: Level, log: LogV) -> bool {
    !(sev(spec_level_of(log.level)) >= sev(min))
}

/// Accepts records whose severity is at least the configured minimum.
pub struct LevelFilter {
    level: Level,
}

impl View for LevelFilter {
    type V = Level;

    closed spec fn view(&self) -> Level {
        self.level
    }
}

impl LevelFilter {
    /// A level filter with the given minimum severity.
    pub fn new(level: Level) -> (r: Self)
        ensures
            r@ == level,
    {
        Self { level }
    }
}

impl Filter for LevelFilter {
    fn filter(&mut self, log: &Log) -> (r: bool)
        ensures
            r == level_rejects(old(self)@, log@),
            final(self)@ == old(self)@,
    {
        let level = Level::from_token(log.level.as_str());
        level.value() < self.level.value()
    }
}

/// Whether the pattern, compiled with or without case folding, is a valid
/// regular expression.
pub uninterp spec fn regex_ok(pat: Seq<char>, ignore_case: bool) -> bool;

/// Whether the pattern, compiled with or without case folding, matches
/// somewhere in the text.
pub uninterp spec fn regex_match(pat: Seq<char>, ignore_case: bool, text: Seq<char>) -> bool;

/// Relies on regex's `RegexBuilder::build` and `Regex::is_match`: whether a
/// pattern compiles, and whether a compiled pattern matches somewhere in a
/// text, depend on the pattern, the case-insensitivity option and the text
/// alone. Returns None when the pattern does not compile.
#[verifier::external_body]
fn regex_check(pat: &str, ignore_case: bool, text: &str) -> (r: Option<bool>)
    ensures
        r is Some <==> regex_ok(pat@, ignore_case),
        r matches Some(m) ==> m == regex_match(pat@, ignore_case, text@),
{
    match regex::RegexBuilder::new(pat).case_insensitive(ignore_case).build() {
        Ok(re) => Some(re.is_match(text)),
        Err(_) => None,
    }
}

/// A record is rejected by the tag-include filter when the pattern is
/// nonempty and either fails to compile (reject-everything) or matches
/// neither the tag nor the message; an empty pattern accepts everything.
pub open spec fn tag_rejects(pat: Seq<char>, ignore_case: bool, log: LogV) -> bool {
    if pat.len() == 0 {
        false
    } else if !regex_ok(pat, ignore_case) {
        true
    } else {
        !(regex_match(pat, ignore_case, log.tag) || regex_match(pat, ignore_case, log.message))
    }
}

/// Accepts records whose tag or message matches the configured pattern.
pub struct TagFilter {
    tag: String,
    ignore: bool,
}

impl View for TagFilter {
    type V = (Seq<char>, bool);

    closed spec fn view(&self) -> (Seq<char>, bool) {
        (self.tag@, self.ignore)
    }
}

impl TagFilter {
    /// A tag-include filter with the given pattern; `ignore` selects
    /// case-insensitive matching.
    pub fn new(tag: String, ignore: bool) -> (r: Self)
        ensures
            r@ == (tag@, ignore),
    {
        Self { tag, ignore }
    }
}

impl Filter for TagFilter {
    fn filter(&mut self, log: &Log) -> (r: bool)
        ensures
            r == tag_rejects(old(self)@.0, old(self)@.1, log@),
            final(self)@ == old(self)@,
    {
        if self.tag.as_str().is_empty() {
            return false;
        }
        match regex_check(self.tag.as_str(), self.ignore, log.tag.as_str()) {
            None => true,
            Some(true) => false,
            Some(false) => {
                match regex_check(self.tag.as_str(), self.ignore, log.message.as_str()) {
                    None => true,
                    Some(m) => !m,
                }
            },
        }
    }
}

/// A record is rejected by the exclusion filter when the pattern is
/// nonempty, compiles, and matches the tag or the message; an empty or
/// non-compiling pattern accepts everything.
pub open spec fn revert_rejects(pat: Seq<char>, ignore_case: bool, log: LogV) -> bool {
    pat.len() > 0 && regex_ok(pat, ignore_case) && (regex_match(pat, ignore_case, log.tag)
        || regex_match(pat, ignore_case, log.message))
}

/// Rejects records whose tag or message matches the configured pattern: the
/// inversion of [`TagFilter`].
pub struct RevertFilter {
    revert: String,
    ignore: bool,
}

impl View for RevertFilter {
    type V = (Seq<char>, bool);

    closed spec fn view(&self) -> (Seq<char>, bool) {
        (self.revert@, self.ignore)
    }
}

impl RevertFilter {
    /// An exclusion filter with the given pattern; `ignore` selects
    /// case-insensitive matching.
    pub fn new(revert: String, ignore: bool) -> (r: Self)
        ensures
            r@ == (revert@, ignore),
    {
        Self { revert, ignore }
    }
}

impl Filter for RevertFilter {
    fn filter(&mut self, log: &Log) -> (r: bool)
        ensures
            r == revert_rejects(old(self)@.0, old(self)@.1, log@),
            final(self)@ == old(self)@,
    {
        if self.revert.as_str().is_empty() {
            return false;
        }
        match regex_check(self.revert.as_str(), self.ignore, log.tag.as_str()) {
            None => false,
            Some(true) => true,
            Some(false) => {
                match regex_check(self.revert.as_str(), self.ignore, log.message.as_str()) {
                    None => false,
                    Some(m) => m,
                }
            },
        }
    }
}

} // verus!
