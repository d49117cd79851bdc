//! A snapshot of the process environment, the input of every decision that
//! depends on environment variables.
use vstd::prelude::*;

use crate::text::push_str;

verus! {

/// Why an environment variable could not be read
#[derive(Debug, Clone, Copy, PartialEq, Eq)]
pub enum VarError {
    /// The variable is not set
    NotPresent,
    /// The variable is set but its value is not valid unicode
    NotUnicode,
}

/// The environment variables of a process: each name with its value, or
/// `None` where the value is not valid unicode
#[derive(Debug, Clone, PartialEq, Eq, Default)]
pub struct Environment {
    /// The variables in the order the process lists them
    pub vars: Vec<(String, Option<String>)>,
}

/// The value of `key` among the first `entries`: the first entry with that name decides
pub open spec fn spec_lookup(entries: Seq<(String, Option<String>)>, key: Seq<char>) -> Result<
    Seq<char>,
    VarError,
>
    decreases entries.len(),
{
    if entries.len() == 0 {
        Err(VarError::NotPresent)
    } else {
        let earlier = spec_lookup(entries.drop_last(), key);
        if earlier != Err::<Seq<char>, VarError>(VarError::NotPresent) {
            earlier
        } else if entries.last().0@ == key {
            match entries.last().1 {
                Some(v) => Ok(v@),
                None => Err(VarError::NotUnicode),
            }
        } else {
            earlier
        }
    }
}

impl Environment {
    /// The value of the variable `key`
    pub open spec fn spec_var(self, key: Seq<char>) -> Result<Seq<char>, VarError> {
        spec_lookup(self.vars@, key)
    }

    /// Whether every value is valid unicode
    pub open spec fn spec_all_unicode(self) -> bool {
        forall|i: int| 0 <= i < self.vars@.len() ==> (#[trigger] self.vars@[i]).1 is Some
    }

    /// Get the value of the variable `key`
    pub fn var(&self, key: &str) -> (r: Result<String, VarError>)
        ensures
            match self.spec_var(key@) {
                Ok(v) => r matches Ok(s) && s@ == v,
                Err(e) => r == Err::<String, VarError>(e),
            },
    {
        let mut i: usize = 0;
        while i < self.vars.len()
            invariant
                i <= self.vars@.len(),
                spec_lookup(self.vars@.take(i as int), key@) == Err::<Seq<char>, VarError>(
                    VarError::NotPresent,
                ),
            decreases self.vars@.len() - i,
        {
            assert(self.vars@.take(i + 1).drop_last() =~= self.vars@.take(i as int));
            if crate::text::str_eq(self.vars[i].0.as_str(), key) {
                proof {
                    lemma_lookup_prefix(self.vars@, key@, i as int + 1);
                }
                return match &self.vars[i].1 {
                    Some(v) => Ok(v.clone()),
                    None => Err(VarError::NotUnicode),
                };
            }
            i = i + 1;
        }
        assert(self.vars@.take(i as int) =~= self.vars@);
        Err(VarError::NotPresent)
    }
}

/// Once a prefix of the entries holds the variable, the rest do not change its value
pub proof fn lemma_lookup_prefix(entries: Seq<(String, Option<String>)>, key: Seq<char>, k: int)
    requires
        0 <= k <= entries.len(),
        spec_lookup(entries.take(k), key) != Err::<Seq<char>, VarError>(VarError::NotPresent),
    ensures
        spec_lookup(entries, key) == spec_lookup(entries.take(k), key),
    decreases entries.len(),
{
    if k < entries.len() {
        assert(entries.drop_last().take(k) =~= entries.take(k));
        lemma_lookup_prefix(entries.drop_last(), key, k);
    } else {
        assert(entries.take(k) =~= entries);
    }
}

/// What `str::to_uppercase` gives for a text: the uppercase mapping of
/// every character by the Unicode rules
pub uninterp spec fn spec_to_uppercase(s: Seq<char>) -> Seq<char>;

/// Whether every character of `s` is ASCII
pub open spec fn spec_all_ascii(s: Seq<char>) -> bool {
    forall|i: int| 0 <= i < s.len() ==> (#[trigger] s[i] as u32) < 0x80
}

/// `s` with the ASCII letters `a` to `z` turned into `A` to `Z`
pub open spec fn spec_ascii_upper(s: Seq<char>) -> Seq<char> {
    s.map_values(|c: char| if 'a' <= c <= 'z' { (c as u32 - 32) as char } else { c })
}

/// The uppercase version of `s`: calls `str::to_uppercase`. The result is
/// named; of a text of ASCII characters it is stated, as the Unicode case
/// mapping turns `a` to `z` into `A` to `Z` and keeps every other ASCII
/// character; beyond ASCII the mapping tables are not written out here.
#[verifier::external_body]
pub(crate) fn to_uppercase(s: &str) -> (r: String)
    ensures
        r@ == spec_to_uppercase(s@),
        spec_all_ascii(s@) ==> r@ == spec_ascii_upper(s@),
{
    s.to_uppercase()
}

/// `a` followed by `b`
pub fn concat_str(a: &str, b: &str) -> (r: String)
    ensures
        r@ == a@ + b@,
{
    let mut r = a.to_owned();
    push_str(&mut r, b);
    r
}

} // verus!
