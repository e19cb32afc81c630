//! Validated variable identifiers: a dotted path of segments made of
//! letters, digits, `_` and `-`.

use vstd::prelude::*;
use crate::errors::ConfigError;
use crate::text::{is_letter, is_digit};
use vstd::string::StrSliceExecFns;
use vstd::string::StringExecFns;

verus! {

/// True when `c` may appear inside a key segment.
pub open spec fn key_char(c: char) -> bool {
    is_letter(c) || is_digit(c) || c == '_' || c == '-'
}

/// A well-formed key: one or more non-empty segments of key characters,
/// separated by single dots.
pub open spec fn key_wf(s: Seq<char>) -> bool {
    &&& s.len() > 0
    &&& forall|i: int| 0 <= i < s.len() ==> key_char(s[i]) || s[i] == '.'
    &&& s[0] != '.'
    &&& s[s.len() - 1] != '.'
    &&& forall|i: int| 0 < i < s.len() ==> !((#[trigger] s[i]) == '.' && s[i - 1] == '.')
}

/// Checks the characters `chars[from..to]` for key well-formedness.
pub fn range_is_key(chars: &Vec<char>, from: usize, to: usize) -> (r: bool)
    requires
        from <= to <= chars@.len(),
    ensures
        r == key_wf(chars@.subrange(from as int, to as int)),
{
    let ghost s = chars@.subrange(from as int, to as int);
    if from == to {
        return false;
    }
    if chars[from] == '.' || chars[to - 1] == '.' {
        proof {
            assert(s[0] == chars@[from as int]);
            assert(s[s.len() - 1] == chars@[to - 1]);
        }
        return false;
    }
    let mut i: usize = from;
    while i < to
        invariant
            from <= i <= to <= chars@.len(),
            s == chars@.subrange(from as int, to as int),
            forall|k: int| from <= k < i ==> key_char(chars@[k]) || chars@[k] == '.',
            forall|k: int| from < k < i ==> !((#[trigger] chars@[k]) == '.' && chars@[k - 1]
                == '.'),
        decreases to - i,
    {
        let c = chars[i];
        let ok = ('a' <= c && c <= 'z') || ('A' <= c && c <= 'Z') || ('0' <= c && c <= '9') || c
            == '_' || c == '-' || c == '.';
        if !ok {
            proof {
                assert(!key_char(s[i - from]) && s[i - from] != '.');
            }
            return false;
        }
        if c == '.' && i > from && chars[i - 1] == '.' {
            proof {
                assert(s[i - from] == '.' && s[i - from - 1] == '.');
            }
            return false;
        }
        i += 1;
    }
    proof {
        assert forall|k: int| 0 <= k < s.len() implies key_char(s[k]) || s[k] == '.' by {
            assert(s[k] == chars@[from + k]);
        }
        assert forall|k: int| 0 < k < s.len() implies !((#[trigger] s[k]) == '.' && s[k - 1]
            == '.') by {
            assert(s[k] == chars@[from + k] && s[k - 1] == chars@[from + k - 1]);
        }
    }
    true
}

/// A validated variable identifier. Equality goes by the underlying text.
#[derive(Debug, Clone)]
pub struct Key {
    text: String,
}

impl View for Key {
    type V = Seq<char>;

    closed spec fn view(&self) -> Seq<char> {
        self.text@
    }
}

impl Key {
    /// The invariant every constructed key carries.
    pub open spec fn wf(&self) -> bool {
        key_wf(self@)
    }

    /// Parses `text` into a key; rejects anything that is not a dotted path
    /// of letters, digits, `_` and `-`.
    pub fn new(text: String) -> (r: Result<Key, ConfigError>)
        ensures
            match r {
                Ok(k) => key_wf(text@) && k@ == text@ && k.wf(),
                Err(e) => !key_wf(text@) && (e matches ConfigError::InvalidName(t) && t@ == text@),
            },
    {
        let chars = crate::text::to_char_vec(text.as_str());
        let n = chars.len();
        proof {
            assert(chars@.subrange(0, n as int) =~= text@);
        }
        if range_is_key(&chars, 0, n) {
            Ok(Key { text })
        } else {
            Err(ConfigError::InvalidName(text))
        }
    }

    /// Wraps text already known to be a well-formed key.
    pub fn from_valid(text: String) -> (r: Key)
        requires
            key_wf(text@),
        ensures
            r@ == text@,
            r.wf(),
    {
        Key { text }
    }

    /// The key's text.
    pub fn as_str(&self) -> (r: &str)
        ensures
            r@ == self@,
    {
        self.text.as_str()
    }

    /// A copy of the key's text.
    pub fn to_text(&self) -> (r: String)
        ensures
            r@ == self@,
    {
        String::from_str(self.text.as_str())
    }

    /// Equality of two keys, decided by their text.
    pub fn eq_key(&self, other: &Key) -> (r: bool)
        ensures
            r == (self@ == other@),
    {
        crate::text::str_eq(self.text.as_str(), other.text.as_str())
    }
}

} // verus!
