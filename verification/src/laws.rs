//! Laws of the grammar, proved once and for all inputs.

use vstd::prelude::*;

use crate::grammar::is_ascii_alpha;
use crate::grammar::is_ascii_digit;
use crate::grammar::lemma_run_end;
use crate::grammar::lemma_run_end_at;
use crate::grammar::lemma_spec_command_end_bounds;
use crate::grammar::lemma_spec_leading_source_bounds;
use crate::grammar::lemma_spec_leading_tags_bounds;
use crate::grammar::lemma_spec_params_bounds;
use crate::grammar::run_end;
use crate::grammar::spec_command_end;
use crate::grammar::spec_leading_source;
use crate::grammar::spec_leading_tags;
use crate::grammar::spec_message;
use crate::grammar::spec_middles;
use crate::grammar::spec_params;
use crate::grammar::spec_tag_list;
use crate::grammar::CharClass;
use crate::model::MessageView;

verus! {

/// A message parsed from an input that does not begin with `@` carries no
/// tags.
pub proof fn lemma_no_tag_segment(s: Seq<char>)
    requires
        spec_message(s) is Ok,
        s.len() == 0 || s[0] != '@',
    ensures
        spec_message(s) matches Ok(ok) && ok.0.tags is None,
{
}

/// A message parsed from an input that begins with `@` carries exactly the
/// key/value pairs of its tag list, in input order.
pub proof fn lemma_tag_segment_kept(s: Seq<char>)
    requires
        spec_message(s) is Ok,
        s.len() > 0,
        s[0] == '@',
    ensures
        spec_message(s) matches Ok(ok) && spec_tag_list(s, 1) matches Some(tl) && ok.0.tags
            == Some(tl.0),
{
}

/// Round trip on the command: for any non-empty alphabetic word `cmd`, the
/// line `cmd` + `" \r\n"` parses to exactly that command, with no tags, no
/// source, no parameters, and nothing left over.
pub proof fn lemma_command_round_trip(cmd: Seq<char>)
    requires
        cmd.len() > 0,
        forall|k: int| 0 <= k < cmd.len() ==> is_ascii_alpha(#[trigger] cmd[k]),
    ensures
        spec_message(cmd + seq![' ', '\r', '\n']) == Ok::<(MessageView, int), (
            crate::model::ErrorKind,
            int,
        )>(
            (
                MessageView {
                    tags: None,
                    source: None,
                    command: cmd,
                    parameters: Seq::<Seq<char>>::empty(),
                },
                cmd.len() as int + 3,
            ),
        ),
{
    let s = cmd + seq![' ', '\r', '\n'];
    let l = cmd.len() as int;
    assert(s.len() == l + 3);
    assert(s[l] == ' ' && s[l + 1] == '\r' && s[l + 2] == '\n');
    assert(forall|k: int| 0 <= k < l ==> s[k] == cmd[k]);
    assert(is_ascii_alpha(s[0]));
    assert(s[0] != '@' && s[0] != ':');
    assert(spec_leading_tags(s) == Some((None::<Seq<(Seq<char>, Seq<char>)>>, 0int)));
    assert(spec_leading_source(s, 0) == Some((None::<Seq<char>>, 0int)));
    lemma_run_end_at(s, 0, l, CharClass::Alpha);
    assert(spec_command_end(s, 0) == l);
    lemma_run_end_at(s, l, l + 1, CharClass::Space);
    assert(run_end(s, l, CharClass::Space) == l + 1);
    lemma_run_end_at(s, l + 1, l + 1, CharClass::Middle);
    assert(spec_middles(s, l + 1) == (Seq::<Seq<char>>::empty(), l + 1));
    assert(spec_params(s, l + 1) == (Seq::<Seq<char>>::empty(), l + 1));
    assert(s.subrange(0, l) =~= cmd);
    assert(spec_message(s) matches Ok(ok) && ok.1 == l + 3 && ok.0 =~~= (MessageView {
        tags: None,
        source: None,
        command: cmd,
        parameters: Seq::<Seq<char>>::empty(),
    }));
}

/// The command of a parsed message is never empty, and is one run of a
/// single character class: all ASCII alphabetic, or all ASCII digits.
pub proof fn lemma_command_shape(s: Seq<char>)
    requires
        spec_message(s) is Ok,
    ensures
        spec_message(s) matches Ok(ok) && ok.0.command.len() > 0 && ((forall|k: int|
            0 <= k < ok.0.command.len() ==> is_ascii_alpha(#[trigger] ok.0.command[k])) || (
        forall|k: int| 0 <= k < ok.0.command.len() ==> is_ascii_digit(#[trigger] ok.0.command[k]))),
{
    lemma_spec_leading_tags_bounds(s);
    match spec_leading_tags(s) {
        None => {},
        Some((tags, i1)) => {
            lemma_spec_leading_source_bounds(s, i1);
            match spec_leading_source(s, i1) {
                None => {},
                Some((source, i2)) => {
                    if i2 < s.len() && is_ascii_alpha(s[i2]) {
                        lemma_run_end(s, i2, CharClass::Alpha);
                    } else if i2 < s.len() && is_ascii_digit(s[i2]) {
                        lemma_run_end(s, i2, CharClass::Digit);
                    }
                },
            }
        },
    }
}

/// A successful parse always saw the CRLF terminator: some position of the
/// input holds `'\r'` immediately followed by `'\n'`. Contrapositively, a
/// line with no CRLF pair in it never parses — it is rejected, not
/// truncated.
pub proof fn lemma_success_needs_crlf(s: Seq<char>)
    requires
        spec_message(s) is Ok,
    ensures
        exists|k: int| 0 <= k && k + 2 <= s.len() && #[trigger] s[k] == '\r' && s[k + 1] == '\n',
{
    lemma_spec_leading_tags_bounds(s);
    match spec_leading_tags(s) {
        None => {},
        Some((tags, i1)) => {
            lemma_spec_leading_source_bounds(s, i1);
            match spec_leading_source(s, i1) {
                None => {},
                Some((source, i2)) => {
                    lemma_spec_command_end_bounds(s, i2);
                    let c = spec_command_end(s, i2);
                    if c != i2 {
                        lemma_run_end(s, c, CharClass::Space);
                        let sp = run_end(s, c, CharClass::Space);
                        if sp != c {
                            lemma_spec_params_bounds(s, sp);
                            let e = spec_params(s, sp).1;
                            assert(e + 2 <= s.len() && s[e] == '\r' && s[e + 1] == '\n');
                        }
                    }
                },
            }
        },
    }
}

} // verus!
