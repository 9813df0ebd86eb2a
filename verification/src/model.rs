//! The parse result and the parse failure types, with their spec-level views.

use vstd::prelude::*;

verus! {

/// A parsed IRC message.
///
/// `tags` holds the key/value pairs of the leading `@`-segment in the order
/// they appear in the input, and is `None` when the input has no tag segment.
/// `source` is the `:`-prefixed origin token, without the `:`, when present.
/// `command` is the alphabetic or numeric command word, never empty.
/// `parameters` are the middle parameters in order, followed by the trailing
/// parameter when one is present.
#[derive(Debug, PartialEq, Clone)]
pub struct Message {
    pub tags: Option<Vec<(String, String)>>,
    pub source: Option<String>,
    pub command: String,
    pub parameters: Vec<String>,
}

/// The mathematical value of a [`Message`]: every text field as a `Seq<char>`.
#[verifier::ext_equal]
pub ghost struct MessageView {
    pub tags: Option<Seq<(Seq<char>, Seq<char>)>>,
    pub source: Option<Seq<char>>,
    pub command: Seq<char>,
    pub parameters: Seq<Seq<char>>,
}

/// View of a vector of string pairs as a sequence of character-sequence pairs.
pub open spec fn pairs_view(v: Seq<(String, String)>) -> Seq<(Seq<char>, Seq<char>)> {
    Seq::new(v.len(), |k: int| (v[k].0@, v[k].1@))
}

/// View of a vector of strings as a sequence of character sequences.
pub open spec fn strings_view(v: Seq<String>) -> Seq<Seq<char>> {
    Seq::new(v.len(), |k: int| v[k]@)
}

impl View for Message {
    type V = MessageView;

    open spec fn view(&self) -> MessageView {
        MessageView {
            tags: match self.tags {
                Some(ps) => Some(pairs_view(ps@)),
                None => None,
            },
            source: match self.source {
                Some(s) => Some(s@),
                None => None,
            },
            command: self.command@,
            parameters: strings_view(self.parameters@),
        }
    }
}

/// The mapping that a tag pair list denotes: pairs are inserted left to
/// right, so on a duplicate key the later value wins.
pub open spec fn tag_map(ps: Seq<(Seq<char>, Seq<char>)>) -> Map<Seq<char>, Seq<char>>
    decreases ps.len(),
{
    if ps.len() == 0 {
        Map::empty()
    } else {
        tag_map(ps.drop_last()).insert(ps.last().0, ps.last().1)
    }
}

/// Character-by-character string equality.
fn str_eq(a: &str, b: &str) -> (r: bool)
    ensures
        r == (a@ == b@),
{
    let na = a.unicode_len();
    let nb = b.unicode_len();
    if na != nb {
        return false;
    }
    let mut k: usize = 0;
    while k < na
        invariant
            na == a@.len(),
            na == b@.len(),
            k <= na,
            forall|j: int| 0 <= j < k ==> a@[j] == b@[j],
        decreases na - k,
    {
        if a.get_char(k) != b.get_char(k) {
            return false;
        }
        k = k + 1;
    }
    proof {
        assert(a@ =~= b@);
    }
    true
}

impl Message {
    /// The value of tag `key` under the mapping the tag list denotes —
    /// later pairs win on a duplicate key — or `None` when the message has
    /// no tag segment or no such key.
    pub fn tag_value(&self, key: &str) -> (r: Option<&String>)
        ensures
            match self@.tags {
                None => r is None,
                Some(ps) => (if tag_map(ps).contains_key(key@) {
                    r matches Some(val) && val@ == tag_map(ps)[key@]
                } else {
                    r is None
                }),
            },
    {
        match self.tags.as_ref() {
            None => None,
            Some(v) => {
                let ghost ps = pairs_view(v@);
                proof {
                    assert(ps.take(v@.len() as int) =~= ps);
                    assert(self@.tags == Some(ps));
                }
                let mut k: usize = v.len();
                while k > 0
                    invariant
                        k <= v.len(),
                        ps == pairs_view(v@),
                        self@.tags == Some(ps),
                        tag_map(ps).contains_key(key@) == tag_map(
                            ps.take(k as int),
                        ).contains_key(key@),
                        tag_map(ps).contains_key(key@) ==> tag_map(ps)[key@] == tag_map(
                            ps.take(k as int),
                        )[key@],
                    decreases k,
                {
                    k = k - 1;
                    proof {
                        assert(ps.take(k as int + 1).drop_last() =~= ps.take(k as int));
                        assert(ps.take(k as int + 1).last() == ps[k as int]);
                    }
                    if str_eq(v[k].0.as_str(), key) {
                        proof {
                            let kk = k as int;
                            assert(ps[kk] == (v@[kk].0@, v@[kk].1@));
                            assert(tag_map(ps.take(kk + 1)) == tag_map(ps.take(kk)).insert(
                                ps[kk].0,
                                ps[kk].1,
                            ));
                            assert(tag_map(ps.take(kk + 1)).contains_key(key@));
                            assert(tag_map(ps).contains_key(key@));
                            assert(tag_map(ps)[key@] == ps[kk].1);
                        }
                        return Some(&v[k].1);
                    }
                }
                proof {
                    assert(ps.take(0) =~= Seq::<(Seq<char>, Seq<char>)>::empty());
                }
                None
            },
        }
    }
}

/// Which grammar element failed to match.
#[derive(Debug, PartialEq, Eq, Clone, Copy)]
pub enum ErrorKind {
    /// The input begins with `@` but no well-formed tag segment
    /// (at least one `key=value`, then a space run) follows.
    Tags,
    /// No command word — neither an alphabetic nor a digit run — starts at
    /// the position where the command is required. This also covers a `:`
    /// that is not followed by a well-formed source segment, since a `:`
    /// can never begin a command.
    Command,
    /// The mandatory space run between the command and the parameter list
    /// is missing.
    Separator,
    /// The terminating CRLF is missing at the end of the parameter list.
    Terminator,
}

/// A parse failure: the grammar element that failed and the character
/// position of the residual input that could not be matched.
#[derive(Debug, PartialEq, Eq, Clone, Copy)]
pub struct ParseError {
    pub kind: ErrorKind,
    pub at: usize,
}

} // verus!
