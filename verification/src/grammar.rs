//! The line grammar, stated as spec functions over `Seq<char>`.
//!
//! Each sub-parser consumes a prefix of the input starting at a character
//! position and yields the parsed value together with the position of the
//! unconsumed remainder; `None` stands for a failed match. [`spec_message`]
//! composes them and is the single definition that the executable parser in
//! [`crate::parser`] is proved against.

use vstd::prelude::*;

use crate::model::ErrorKind;
use crate::model::MessageView;

verus! {

/// The character classes whose runs the grammar is built from.
#[derive(Clone, Copy)]
pub enum CharClass {
    /// The space character — a SPACE separator run.
    Space,
    /// Any character but `=` — a tag key.
    TagKey,
    /// Any character but `;` or space — a tag value.
    TagValue,
    /// Any character but space — the source token.
    NotSpace,
    /// An ASCII alphabetic character — an alphabetic command word.
    Alpha,
    /// An ASCII digit — a numeric command word.
    Digit,
    /// Any character but space, `:`, CR and LF — a middle parameter.
    Middle,
    /// Any character but CR and LF — a trailing parameter.
    Trailing,
}

pub open spec fn is_ascii_alpha(c: char) -> bool {
    (65 <= c as u32 && c as u32 <= 90) || (97 <= c as u32 && c as u32 <= 122)
}

pub open spec fn is_ascii_digit(c: char) -> bool {
    48 <= c as u32 && c as u32 <= 57
}

pub open spec fn in_class(cc: CharClass, c: char) -> bool {
    match cc {
        CharClass::Space => c == ' ',
        CharClass::TagKey => c != '=',
        CharClass::TagValue => c != ';' && c != ' ',
        CharClass::NotSpace => c != ' ',
        CharClass::Alpha => is_ascii_alpha(c),
        CharClass::Digit => is_ascii_digit(c),
        CharClass::Middle => c != ' ' && c != '\r' && c != '\n' && c != ':',
        CharClass::Trailing => c != '\r' && c != '\n',
    }
}

/// The position where the run of `cc`-class characters that starts at `i`
/// ends: the first position at or after `i` holding a character outside the
/// class, or the end of the input.
pub open spec fn run_end(s: Seq<char>, i: int, cc: CharClass) -> int
    recommends
        0 <= i <= s.len(),
    decreases s.len() - i,
        when 0 <= i <= s.len()
{
    if i < s.len() && in_class(cc, s[i]) {
        run_end(s, i + 1, cc)
    } else {
        i
    }
}

pub proof fn lemma_run_end(s: Seq<char>, i: int, cc: CharClass)
    requires
        0 <= i <= s.len(),
    ensures
        i <= run_end(s, i, cc) <= s.len(),
        forall|k: int| i <= k < run_end(s, i, cc) ==> in_class(cc, #[trigger] s[k]),
        run_end(s, i, cc) < s.len() ==> !in_class(cc, s[run_end(s, i, cc)]),
    decreases s.len() - i,
{
    if i < s.len() && in_class(cc, s[i]) {
        lemma_run_end(s, i + 1, cc);
    }
}

/// A run end is pinned down by its characters: if everything in `[i, e)` is
/// in the class and `e` is the end of input or out of the class, the run
/// ends exactly at `e`.
pub proof fn lemma_run_end_at(s: Seq<char>, i: int, e: int, cc: CharClass)
    requires
        0 <= i <= e <= s.len(),
        forall|k: int| i <= k < e ==> in_class(cc, #[trigger] s[k]),
        e < s.len() ==> !in_class(cc, s[e]),
    ensures
        run_end(s, i, cc) == e,
    decreases e - i,
{
    if i < e {
        lemma_run_end_at(s, i + 1, e, cc);
    }
}

/// One tag, `key '=' value`: the key is a non-empty run of characters other
/// than `=`, the value a possibly empty run of characters other than `;` and
/// space. Fails when the key would be empty or no `=` follows it.
pub open spec fn spec_tag(s: Seq<char>, i: int) -> Option<((Seq<char>, Seq<char>), int)>
    recommends
        0 <= i <= s.len(),
{
    let k = run_end(s, i, CharClass::TagKey);
    if k == i || k == s.len() {
        None
    } else {
        let v = run_end(s, k + 1, CharClass::TagValue);
        Some(((s.subrange(i, k), s.subrange(k + 1, v)), v))
    }
}

pub proof fn lemma_spec_tag_bounds(s: Seq<char>, i: int)
    requires
        0 <= i <= s.len(),
    ensures
        spec_tag(s, i) matches Some(t) ==> i + 2 <= t.1 <= s.len(),
{
    lemma_run_end(s, i, CharClass::TagKey);
    let k = run_end(s, i, CharClass::TagKey);
    if k != i && k != s.len() {
        lemma_run_end(s, k + 1, CharClass::TagValue);
    }
}

/// One or more tags separated by `;`. After a `;` the next tag must match;
/// when it does not, the list ends before that `;` and leaves it unconsumed.
pub open spec fn spec_tag_list(s: Seq<char>, i: int) -> Option<
    (Seq<(Seq<char>, Seq<char>)>, int),
>
    recommends
        0 <= i <= s.len(),
    decreases s.len() - i,
        when 0 <= i <= s.len()
{
    match spec_tag(s, i) {
        None => None,
        Some((p, j)) => {
            if j < s.len() && s[j] == ';' {
                proof {
                    lemma_spec_tag_bounds(s, i);
                }
                match spec_tag_list(s, j + 1) {
                    Some((rest, e)) => Some((seq![p] + rest, e)),
                    None => Some((seq![p], j)),
                }
            } else {
                Some((seq![p], j))
            }
        },
    }
}

pub proof fn lemma_spec_tag_list_bounds(s: Seq<char>, i: int)
    requires
        0 <= i <= s.len(),
    ensures
        spec_tag_list(s, i) matches Some(t) ==> i + 2 <= t.1 <= s.len() && t.0.len() >= 1,
    decreases s.len() - i,
{
    lemma_spec_tag_bounds(s, i);
    match spec_tag(s, i) {
        None => {},
        Some((p, j)) => {
            if j < s.len() && s[j] == ';' {
                lemma_spec_tag_list_bounds(s, j + 1);
            }
        },
    }
}

/// The optional leading tag segment, `'@' tags SPACE+`. Without a leading
/// `@` nothing is consumed and there are no tags; with one, the whole
/// segment must match or the result is a failure.
pub open spec fn spec_leading_tags(s: Seq<char>) -> Option<
    (Option<Seq<(Seq<char>, Seq<char>)>>, int),
> {
    if s.len() > 0 && s[0] == '@' {
        match spec_tag_list(s, 1) {
            None => None,
            Some((ps, j)) => {
                let sp = run_end(s, j, CharClass::Space);
                if sp == j {
                    None
                } else {
                    Some((Some(ps), sp))
                }
            },
        }
    } else {
        Some((None, 0))
    }
}

/// The optional source segment, `':' non-space-run SPACE+`, starting at `i`.
/// Without a leading `:` nothing is consumed and there is no source; with
/// one, the whole segment must match or the result is a failure.
pub open spec fn spec_leading_source(s: Seq<char>, i: int) -> Option<(Option<Seq<char>>, int)>
    recommends
        0 <= i <= s.len(),
{
    if i < s.len() && s[i] == ':' {
        let e = run_end(s, i + 1, CharClass::NotSpace);
        let sp = run_end(s, e, CharClass::Space);
        if e > i + 1 && sp > e {
            Some((Some(s.subrange(i + 1, e)), sp))
        } else {
            None
        }
    } else {
        Some((None, i))
    }
}

/// Where the command word that starts at `i` ends: the end of the alphabetic
/// run when an alphabetic character stands at `i`, the end of the digit run
/// when a digit does, and `i` itself — an empty, failed match — otherwise.
pub open spec fn spec_command_end(s: Seq<char>, i: int) -> int
    recommends
        0 <= i <= s.len(),
{
    if i < s.len() && is_ascii_alpha(s[i]) {
        run_end(s, i, CharClass::Alpha)
    } else if i < s.len() && is_ascii_digit(s[i]) {
        run_end(s, i, CharClass::Digit)
    } else {
        i
    }
}

/// Zero or more middle parameters separated by space runs. A separating
/// space run is consumed only when another middle parameter follows it.
pub open spec fn spec_middles(s: Seq<char>, i: int) -> (Seq<Seq<char>>, int)
    recommends
        0 <= i <= s.len(),
    decreases s.len() - i,
        when 0 <= i <= s.len()
{
    let m = run_end(s, i, CharClass::Middle);
    if m == i {
        (Seq::<Seq<char>>::empty(), i)
    } else {
        let sp = run_end(s, m, CharClass::Space);
        if sp > m && run_end(s, sp, CharClass::Middle) > sp {
            proof {
                lemma_run_end(s, i, CharClass::Middle);
                lemma_run_end(s, m, CharClass::Space);
            }
            let (rest, e) = spec_middles(s, sp);
            (seq![s.subrange(i, m)] + rest, e)
        } else {
            (seq![s.subrange(i, m)], m)
        }
    }
}

pub proof fn lemma_spec_middles_bounds(s: Seq<char>, i: int)
    requires
        0 <= i <= s.len(),
    ensures
        i <= spec_middles(s, i).1 <= s.len(),
    decreases s.len() - i,
{
    lemma_run_end(s, i, CharClass::Middle);
    let m = run_end(s, i, CharClass::Middle);
    if m != i {
        lemma_run_end(s, m, CharClass::Space);
        let sp = run_end(s, m, CharClass::Space);
        if sp > m && run_end(s, sp, CharClass::Middle) > sp {
            lemma_spec_middles_bounds(s, sp);
        }
    }
}

/// The parameter list: the middle parameters, then the optional trailing
/// parameter. A trailing parameter is a `:` followed by everything up to CR
/// or LF — possibly nothing — and must be separated from a preceding middle
/// parameter by a space run; when there is no middle parameter it follows
/// directly. This sub-parser never fails.
pub open spec fn spec_params(s: Seq<char>, i: int) -> (Seq<Seq<char>>, int)
    recommends
        0 <= i <= s.len(),
{
    let (ms, j) = spec_middles(s, i);
    if ms.len() > 0 {
        let sp = run_end(s, j, CharClass::Space);
        if sp > j && sp < s.len() && s[sp] == ':' {
            let t = run_end(s, sp + 1, CharClass::Trailing);
            (ms.push(s.subrange(sp + 1, t)), t)
        } else {
            (ms, j)
        }
    } else {
        if i < s.len() && s[i] == ':' {
            let t = run_end(s, i + 1, CharClass::Trailing);
            (seq![s.subrange(i + 1, t)], t)
        } else {
            (ms, i)
        }
    }
}

pub proof fn lemma_spec_params_bounds(s: Seq<char>, i: int)
    requires
        0 <= i <= s.len(),
    ensures
        i <= spec_params(s, i).1 <= s.len(),
{
    lemma_spec_middles_bounds(s, i);
    let (ms, j) = spec_middles(s, i);
    if ms.len() > 0 {
        lemma_run_end(s, j, CharClass::Space);
        let sp = run_end(s, j, CharClass::Space);
        if sp > j && sp < s.len() && s[sp] == ':' {
            lemma_run_end(s, sp + 1, CharClass::Trailing);
        }
    } else {
        if i < s.len() && s[i] == ':' {
            lemma_run_end(s, i + 1, CharClass::Trailing);
        }
    }
}

pub proof fn lemma_spec_leading_tags_bounds(s: Seq<char>)
    ensures
        spec_leading_tags(s) matches Some(t) ==> 0 <= t.1 <= s.len(),
{
    if s.len() > 0 && s[0] == '@' {
        lemma_spec_tag_list_bounds(s, 1);
        match spec_tag_list(s, 1) {
            None => {},
            Some((ps, j)) => {
                lemma_run_end(s, j, CharClass::Space);
            },
        }
    }
}

pub proof fn lemma_spec_leading_source_bounds(s: Seq<char>, i: int)
    requires
        0 <= i <= s.len(),
    ensures
        spec_leading_source(s, i) matches Some(t) ==> i <= t.1 <= s.len(),
{
    if i < s.len() && s[i] == ':' {
        lemma_run_end(s, i + 1, CharClass::NotSpace);
        let e = run_end(s, i + 1, CharClass::NotSpace);
        lemma_run_end(s, e, CharClass::Space);
    }
}

pub proof fn lemma_spec_command_end_bounds(s: Seq<char>, i: int)
    requires
        0 <= i <= s.len(),
    ensures
        i <= spec_command_end(s, i) <= s.len(),
{
    if i < s.len() && is_ascii_alpha(s[i]) {
        lemma_run_end(s, i, CharClass::Alpha);
    } else if i < s.len() && is_ascii_digit(s[i]) {
        lemma_run_end(s, i, CharClass::Digit);
    }
}

/// One whole message:
/// `['@' tags SPACE+] [':' source SPACE+] command SPACE+ parameters CRLF`.
///
/// On success the result carries the message value and the number of
/// characters consumed, CRLF included; anything after that is left to the
/// caller. On failure it carries the grammar element that failed and the
/// position of the residual input that could not be matched.
pub open spec fn spec_message(s: Seq<char>) -> Result<(MessageView, int), (ErrorKind, int)> {
    match spec_leading_tags(s) {
        None => Err((ErrorKind::Tags, 0)),
        Some((tags, i1)) => match spec_leading_source(s, i1) {
            None => Err((ErrorKind::Command, i1)),
            Some((source, i2)) => {
                let c = spec_command_end(s, i2);
                if c == i2 {
                    Err((ErrorKind::Command, i2))
                } else {
                    let sp = run_end(s, c, CharClass::Space);
                    if sp == c {
                        Err((ErrorKind::Separator, c))
                    } else {
                        let (params, e) = spec_params(s, sp);
                        if e + 2 <= s.len() && s[e] == '\r' && s[e + 1] == '\n' {
                            Ok(
                                (
                                    MessageView {
                                        tags: tags,
                                        source: source,
                                        command: s.subrange(i2, c),
                                        parameters: params,
                                    },
                                    e + 2,
                                ),
                            )
                        } else {
                            Err((ErrorKind::Terminator, e))
                        }
                    }
                }
            },
        },
    }
}

} // verus!
