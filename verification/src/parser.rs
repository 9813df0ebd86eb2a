//! The executable parser, proved to agree with the grammar in
//! [`crate::grammar`] on every input.

use vstd::prelude::*;

use crate::grammar::in_class;
use crate::grammar::lemma_run_end;
use crate::grammar::run_end;
use crate::grammar::spec_command_end;
use crate::grammar::spec_leading_source;
use crate::grammar::spec_leading_tags;
use crate::grammar::spec_message;
use crate::grammar::spec_middles;
use crate::grammar::spec_params;
use crate::grammar::spec_tag;
use crate::grammar::spec_tag_list;
use crate::grammar::CharClass;
use crate::model::pairs_view;
use crate::model::strings_view;
use crate::model::ErrorKind;
use crate::model::Message;
use crate::model::ParseError;

verus! {

/// Whether `c` belongs to the character class `cc`.
fn char_in_class(cc: CharClass, c: char) -> (b: bool)
    ensures
        b == in_class(cc, c),
{
    match cc {
        CharClass::Space => c == ' ',
        CharClass::TagKey => c != '=',
        CharClass::TagValue => c != ';' && c != ' ',
        CharClass::NotSpace => c != ' ',
        CharClass::Alpha => {
            let u = c as u32;
            (65 <= u && u <= 90) || (97 <= u && u <= 122)
        },
        CharClass::Digit => {
            let u = c as u32;
            48 <= u && u <= 57
        },
        CharClass::Middle => c != ' ' && c != '\r' && c != '\n' && c != ':',
        CharClass::Trailing => c != '\r' && c != '\n',
    }
}

/// Scans forward from `i` over characters of class `cc` and returns the
/// position where the run ends.
fn find_run_end(s: &str, n: usize, i: usize, cc: CharClass) -> (j: usize)
    requires
        n == s@.len(),
        i <= n,
    ensures
        i <= j <= n,
        j as int == run_end(s@, i as int, cc),
{
    let mut j: usize = i;
    while j < n && char_in_class(cc, s.get_char(j))
        invariant
            n == s@.len(),
            i <= j <= n,
            run_end(s@, i as int, cc) == run_end(s@, j as int, cc),
        decreases n - j,
    {
        j = j + 1;
    }
    proof {
        assert(run_end(s@, j as int, cc) == j as int);
    }
    j
}

/// Parses one `key '=' value` tag starting at `i`.
fn parse_tag(s: &str, n: usize, i: usize) -> (r: Option<(String, String, usize)>)
    requires
        n == s@.len(),
        i <= n,
    ensures
        match spec_tag(s@, i as int) {
            Some((p, j)) => r matches Some((ks, vs, jj)) && ks@ == p.0 && vs@ == p.1 && jj as int
                == j && i < jj <= n,
            None => r is None,
        },
{
    let k = find_run_end(s, n, i, CharClass::TagKey);
    if k == i || k == n {
        return None;
    }
    let v = find_run_end(s, n, k + 1, CharClass::TagValue);
    let key = s.substring_char(i, k).to_owned();
    let value = s.substring_char(k + 1, v).to_owned();
    Some((key, value, v))
}

/// Parses the `;`-separated tag list starting at `i`.
fn parse_tag_list(s: &str, n: usize, i: usize) -> (r: Option<(Vec<(String, String)>, usize)>)
    requires
        n == s@.len(),
        i <= n,
    ensures
        match spec_tag_list(s@, i as int) {
            Some((ps, j)) => r matches Some((v, jj)) && pairs_view(v@) == ps && jj as int == j && i
                < jj <= n,
            None => r is None,
        },
    decreases n - i,
{
    match parse_tag(s, n, i) {
        None => None,
        Some((key, value, j)) => {
            if j < n && s.get_char(j) == ';' {
                match parse_tag_list(s, n, j + 1) {
                    Some((mut rest, e)) => {
                        rest.insert(0, (key, value));
                        proof {
                            let ps = spec_tag_list(s@, i as int)->Some_0.0;
                            assert(pairs_view(rest@) =~= ps);
                        }
                        Some((rest, e))
                    },
                    None => {
                        let mut one: Vec<(String, String)> = Vec::new();
                        one.push((key, value));
                        proof {
                            let ps = spec_tag_list(s@, i as int)->Some_0.0;
                            assert(pairs_view(one@) =~= ps);
                        }
                        Some((one, j))
                    },
                }
            } else {
                let mut one: Vec<(String, String)> = Vec::new();
                one.push((key, value));
                proof {
                    let ps = spec_tag_list(s@, i as int)->Some_0.0;
                    assert(pairs_view(one@) =~= ps);
                }
                Some((one, j))
            }
        },
    }
}

/// Parses the space-separated middle parameters starting at `i`.
fn parse_middles(s: &str, n: usize, i: usize) -> (r: (Vec<String>, usize))
    requires
        n == s@.len(),
        i <= n,
    ensures
        strings_view(r.0@) == spec_middles(s@, i as int).0,
        r.1 as int == spec_middles(s@, i as int).1,
        i <= r.1 <= n,
    decreases n - i,
{
    let m = find_run_end(s, n, i, CharClass::Middle);
    if m == i {
        let none: Vec<String> = Vec::new();
        proof {
            assert(strings_view(none@) =~= spec_middles(s@, i as int).0);
        }
        (none, i)
    } else {
        let sp = find_run_end(s, n, m, CharClass::Space);
        let m2 = find_run_end(s, n, sp, CharClass::Middle);
        if sp > m && m2 > sp {
            let (mut rest, e) = parse_middles(s, n, sp);
            rest.insert(0, s.substring_char(i, m).to_owned());
            proof {
                assert(strings_view(rest@) =~= spec_middles(s@, i as int).0);
            }
            (rest, e)
        } else {
            let mut one: Vec<String> = Vec::new();
            one.push(s.substring_char(i, m).to_owned());
            proof {
                assert(strings_view(one@) =~= spec_middles(s@, i as int).0);
            }
            (one, m)
        }
    }
}

/// Parses the whole parameter list starting at `i`: the middle parameters,
/// then the optional trailing parameter.
fn parse_params(s: &str, n: usize, i: usize) -> (r: (Vec<String>, usize))
    requires
        n == s@.len(),
        i <= n,
    ensures
        strings_view(r.0@) == spec_params(s@, i as int).0,
        r.1 as int == spec_params(s@, i as int).1,
        i <= r.1 <= n,
{
    let (mut ms, j) = parse_middles(s, n, i);
    if ms.len() > 0 {
        let sp = find_run_end(s, n, j, CharClass::Space);
        if sp > j && sp < n && s.get_char(sp) == ':' {
            let t = find_run_end(s, n, sp + 1, CharClass::Trailing);
            ms.push(s.substring_char(sp + 1, t).to_owned());
            proof {
                assert(strings_view(ms@) =~= spec_params(s@, i as int).0);
            }
            (ms, t)
        } else {
            (ms, j)
        }
    } else {
        if i < n && s.get_char(i) == ':' {
            let t = find_run_end(s, n, i + 1, CharClass::Trailing);
            ms.push(s.substring_char(i + 1, t).to_owned());
            proof {
                assert(strings_view(ms@) =~= spec_params(s@, i as int).0);
            }
            (ms, t)
        } else {
            (ms, i)
        }
    }
}

/// Parses one IRC protocol line from the front of `s`.
///
/// On success, returns the structured [`Message`] together with the part of
/// `s` that follows the terminating CRLF, so a caller holding a larger
/// buffer can parse the next line from it. On failure, returns which
/// grammar element failed and the character position of the residual input
/// that could not be matched. The result is exactly what the grammar
/// [`spec_message`] assigns to the characters of `s` — success and failure
/// alike — and the input is never mutated.
pub fn message<'a>(s: &'a str) -> (r: Result<(Message, &'a str), ParseError>)
    ensures
        match spec_message(s@) {
            Ok(ok) => r matches Ok(p) && p.0@ == ok.0 && p.1@ == s@.subrange(
                ok.1,
                s@.len() as int,
            ),
            Err(e) => r matches Err(pe) && pe.kind == e.0 && pe.at as int == e.1,
        },
{
    let n = s.unicode_len();
    // The optional tag segment.
    let mut tags: Option<Vec<(String, String)>> = None;
    let mut i: usize = 0;
    if n > 0 && s.get_char(0) == '@' {
        match parse_tag_list(s, n, 1) {
            None => {
                return Err(ParseError { kind: ErrorKind::Tags, at: 0 });
            },
            Some((ps, j)) => {
                let sp = find_run_end(s, n, j, CharClass::Space);
                if sp == j {
                    return Err(ParseError { kind: ErrorKind::Tags, at: 0 });
                }
                tags = Some(ps);
                i = sp;
            },
        }
    }
    let ghost tags_v: Option<Seq<(Seq<char>, Seq<char>)>> = match &tags {
        Some(v) => Some(pairs_view(v@)),
        None => None,
    };
    proof {
        assert(spec_leading_tags(s@) == Some((tags_v, i as int)));
    }
    // The optional source segment.
    let ghost i1: int = i as int;
    let mut source: Option<String> = None;
    if i < n && s.get_char(i) == ':' {
        let e = find_run_end(s, n, i + 1, CharClass::NotSpace);
        let sp = find_run_end(s, n, e, CharClass::Space);
        if e > i + 1 && sp > e {
            source = Some(s.substring_char(i + 1, e).to_owned());
            i = sp;
        } else {
            return Err(ParseError { kind: ErrorKind::Command, at: i });
        }
    }
    let ghost source_v: Option<Seq<char>> = match &source {
        Some(v) => Some(v@),
        None => None,
    };
    proof {
        assert(spec_leading_source(s@, i1) == Some((source_v, i as int)));
    }
    // The mandatory command word.
    let ghost i2: int = i as int;
    let c_end: usize = if i < n && char_in_class(CharClass::Alpha, s.get_char(i)) {
        proof {
            lemma_run_end(s@, i as int + 1, CharClass::Alpha);
        }
        find_run_end(s, n, i, CharClass::Alpha)
    } else if i < n && char_in_class(CharClass::Digit, s.get_char(i)) {
        proof {
            lemma_run_end(s@, i as int + 1, CharClass::Digit);
        }
        find_run_end(s, n, i, CharClass::Digit)
    } else {
        return Err(ParseError { kind: ErrorKind::Command, at: i });
    };
    proof {
        assert(spec_command_end(s@, i2) == c_end as int && i2 < c_end as int);
    }
    let command = s.substring_char(i, c_end).to_owned();
    // The mandatory space run between command and parameters.
    let sp = find_run_end(s, n, c_end, CharClass::Space);
    if sp == c_end {
        return Err(ParseError { kind: ErrorKind::Separator, at: c_end });
    }
    // The parameter list, then the terminating CRLF.
    let (parameters, e) = parse_params(s, n, sp);
    if e < n && s.get_char(e) == '\r' && e + 1 < n && s.get_char(e + 1) == '\n' {
        let rest = s.substring_char(e + 2, n);
        let m = Message { tags, source, command, parameters };
        proof {
            assert(spec_message(s@) matches Ok(ok) && m@ == ok.0);
        }
        Ok((m, rest))
    } else {
        Err(ParseError { kind: ErrorKind::Terminator, at: e })
    }
}

} // verus!
