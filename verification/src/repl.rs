//! The chat loop's decisions: what a line the user typed asks for, and how
//! the chat screen and a reply from the model are laid out.

use vstd::prelude::*;
use vstd::string::*;
use crate::config::{split_on, split_str, string_views};
use crate::terminal::{
    ActionView, Segment, TermOutput, TextStyle, blank, line, plain, seg, segment_views, spaced,
    write_spaced_line,
};
use crate::text::{chars_of, trim, trim_ws, string_of_range};

verus! {

/// What a line the user typed asks for.
pub enum InputAction {
    /// Nothing: the line is blank.
    Skip,
    /// End the conversation.
    Exit,
    /// Run the slash command (the trimmed line).
    Command(String),
    /// Send the trimmed line to the model.
    Chat(String),
}

/// The spec-level value of an input action.
pub enum InputActionView {
    Skip,
    Exit,
    Command(Seq<char>),
    Chat(Seq<char>),
}

impl View for InputAction {
    type V = InputActionView;

    open spec fn view(&self) -> InputActionView {
        match self {
            InputAction::Skip => InputActionView::Skip,
            InputAction::Exit => InputActionView::Exit,
            InputAction::Command(s) => InputActionView::Command(s@),
            InputAction::Chat(s) => InputActionView::Chat(s@),
        }
    }
}

/// ASCII lower-casing of one character.
pub open spec fn ascii_lower(c: char) -> char {
    if 65 <= c as u32 && c as u32 <= 90 {
        ((c as u32) + 32) as char
    } else {
        c
    }
}

/// `a` and `b` are equal when ASCII letters are compared without case.
pub open spec fn eq_ignore_ascii_case(a: Seq<char>, b: Seq<char>) -> bool {
    a.len() == b.len() && forall|i: int| 0 <= i < a.len() ==> ascii_lower(#[trigger] a[i])
        == ascii_lower(b[i])
}

fn lower_char(c: char) -> (r: u32)
    ensures
        r == ascii_lower(c) as u32,
{
    let u = c as u32;
    if 65 <= u && u <= 90 {
        u + 32
    } else {
        u
    }
}

/// `a` and `b` are equal when ASCII letters are compared without case.
pub fn equal_ignoring_ascii_case(a: &str, b: &str) -> (r: bool)
    ensures
        r == eq_ignore_ascii_case(a@, b@),
{
    let va = chars_of(a);
    let vb = chars_of(b);
    if va.len() != vb.len() {
        return false;
    }
    let mut i: usize = 0;
    while i < va.len()
        invariant
            va@ == a@,
            vb@ == b@,
            va@.len() == vb@.len(),
            i <= va@.len(),
            forall|k: int| 0 <= k < i ==> ascii_lower(#[trigger] va@[k]) == ascii_lower(vb@[k]),
        decreases va@.len() - i,
    {
        if lower_char(va[i]) != lower_char(vb[i]) {
            return false;
        }
        i = i + 1;
    }
    true
}

/// What the typed line `input` asks for: nothing when blank, the end of the
/// conversation for `exit` or `quit` in any case, a command when it starts
/// with a slash, a chat message otherwise; the line is trimmed first.
pub open spec fn input_action(input: Seq<char>) -> InputActionView {
    let m = trim_ws(input);
    if m.len() == 0 {
        InputActionView::Skip
    } else if eq_ignore_ascii_case(m, "exit"@) || eq_ignore_ascii_case(m, "quit"@) {
        InputActionView::Exit
    } else if m[0] == '/' {
        InputActionView::Command(m)
    } else {
        InputActionView::Chat(m)
    }
}

/// What the typed line `input` asks for.
pub fn classify_input(input: &str) -> (r: InputAction)
    ensures
        r@ == input_action(input@),
{
    let m = trim(input);
    let n = m.as_str().unicode_len();
    if n == 0 {
        return InputAction::Skip;
    }
    if equal_ignoring_ascii_case(m.as_str(), "exit") || equal_ignoring_ascii_case(m.as_str(), "quit") {
        return InputAction::Exit;
    }
    if m.as_str().get_char(0) == '/' {
        InputAction::Command(m)
    } else {
        InputAction::Chat(m)
    }
}

/// `s` without one trailing carriage return.
pub open spec fn strip_cr(s: Seq<char>) -> Seq<char> {
    if s.len() > 0 && s.last() == '\r' {
        s.drop_last()
    } else {
        s
    }
}

/// The lines of `s` as `str::lines` yields them: split at `\n`, a `\r`
/// right before a `\n` dropped, no line after a final `\n`.
pub open spec fn lines_of(s: Seq<char>) -> Seq<Seq<char>> {
    if s.len() == 0 {
        Seq::<Seq<char>>::empty()
    } else {
        let p = split_on(s, '\n');
        let body = if s.last() == '\n' {
            p.drop_last()
        } else {
            p
        };
        Seq::new(
            body.len(),
            |i: int|
                if i < p.len() - 1 {
                    strip_cr(body[i])
                } else {
                    body[i]
                },
        )
    }
}

proof fn lemma_split_len(s: Seq<char>, sep: char)
    ensures
        split_on(s, sep).len() >= 1,
        s.len() > 0 && s.last() == sep ==> split_on(s, sep).len() >= 2,
    decreases s.len(),
{
    if s.len() > 0 {
        lemma_split_len(s.drop_last(), sep);
    }
}

/// The lines of `s`.
pub fn lines(s: &str) -> (r: Vec<String>)
    ensures
        string_views(r@) == lines_of(s@),
{
    let n = s.unicode_len();
    if n == 0 {
        let r: Vec<String> = Vec::new();
        assert(string_views(r@) =~= lines_of(s@));
        return r;
    }
    let pieces = split_str(s, '\n');
    let ends_with_newline = s.get_char(n - 1) == '\n';
    proof {
        lemma_split_len(s@, '\n');
    }
    let count = if ends_with_newline {
        pieces.len() - 1
    } else {
        pieces.len()
    };
    let ghost p = split_on(s@, '\n');
    let ghost body = if s@.last() == '\n' {
        p.drop_last()
    } else {
        p
    };
    let ghost ls = lines_of(s@);
    assert(ls.len() == body.len());
    let mut r: Vec<String> = Vec::new();
    let mut i: usize = 0;
    while i < count
        invariant
            ls == lines_of(s@),
            ls.len() == count,
            forall|k: int| 0 <= k < count ==> #[trigger] ls[k] == (if k < p.len() - 1 {
                strip_cr(body[k])
            } else {
                body[k]
            }),
            string_views(pieces@) == p,
            p == split_on(s@, '\n'),
            p.len() >= 1,
            count == body.len(),
            body.len() <= p.len(),
            forall|k: int| 0 <= k < body.len() ==> #[trigger] body[k] == p[k],
            i <= count,
            string_views(r@) == lines_of(s@).take(i as int),
            s@.len() > 0,
        decreases count - i,
    {
        let piece = &pieces[i];
        assert(piece@ == p[i as int]);
        let k = piece.as_str().unicode_len();
        let out_line = if i < pieces.len() - 1 && k > 0 && piece.as_str().get_char(k - 1) == '\r' {
            let v = chars_of(piece.as_str());
            assert(v@.subrange(0, (k - 1) as int) =~= piece@.drop_last());
            string_of_range(&v, 0, k - 1)
        } else {
            piece.clone()
        };
        let ghost before = string_views(r@);
        let ghost lv = out_line@;
        r.push(out_line);
        assert(string_views(r@) =~= before.push(lv));
        assert(ls[i as int] == lv);
        assert(ls.take(i + 1) =~= ls.take(i as int).push(ls[i as int]));
        i = i + 1;
    }
    assert(ls.take(count as int) =~= ls);
    r
}

/// The separator line of the chat screen.
pub open spec fn separator() -> Seq<char> {
    "───────────────────────────────────────────────────────────────────"@
}

/// How a line of a reply is shown: blank when it holds only whitespace.
pub open spec fn reply_line(l: Seq<char>) -> ActionView {
    if trim_ws(l).len() == 0 {
        blank()
    } else {
        line(l)
    }
}

/// How a model reply is shown: a spaced "Assistant:" heading, the reply's lines,
/// then a spaced separator.
pub open spec fn reply_actions(response: Seq<char>) -> Seq<ActionView> {
    seq![blank(), ActionView::WriteLine(seq![("Assistant"@, TextStyle::BlueBold), plain(":"@)]), blank()]
        + lines_of(response).map_values(|l: Seq<char>| reply_line(l)) + spaced(separator())
}

/// Shows a model reply.
pub fn write_reply(out: &mut TermOutput, response: &str)
    ensures
        final(out)@ == old(out)@ + reply_actions(response@),
{
    out.write_blank();
    let mut v: Vec<Segment> = Vec::new();
    v.push(seg("Assistant", TextStyle::BlueBold));
    v.push(seg(":", TextStyle::Plain));
    assert(segment_views(v@) =~= seq![("Assistant"@, TextStyle::BlueBold), plain(":"@)]);
    out.write_segments(v);
    out.write_blank();
    let ghost head = out@;
    let ls = lines(response);
    let ghost lv = string_views(ls@);
    let mut i: usize = 0;
    assert(head =~= head + lv.map_values(|l: Seq<char>| reply_line(l)).take(0));
    while i < ls.len()
        invariant
            i <= ls@.len(),
            lv == string_views(ls@),
            lv == lines_of(response@),
            out@ == head + lv.map_values(|l: Seq<char>| reply_line(l)).take(i as int),
        decreases ls@.len() - i,
    {
        let t = trim(ls[i].as_str());
        assert(lv[i as int] == ls@[i as int]@);
        if t.as_str().unicode_len() == 0 {
            out.write_blank();
        } else {
            out.write_line(ls[i].clone());
        }
        assert(lv.map_values(|l: Seq<char>| reply_line(l)).take(i + 1) =~= lv.map_values(
            |l: Seq<char>| reply_line(l),
        ).take(i as int).push(reply_line(lv[i as int])));
        i = i + 1;
    }
    assert(lv.map_values(|l: Seq<char>| reply_line(l)).take(ls@.len() as int) =~= lv.map_values(
        |l: Seq<char>| reply_line(l),
    ));
    write_spaced_line(out, String::from_str("───────────────────────────────────────────────────────────────────"));
    assert(final(out)@ =~= old(out)@ + reply_actions(response@));
}

/// The farewell.
pub fn write_goodbye(out: &mut TermOutput)
    ensures
        final(out)@ == old(out)@ + spaced("Goodbye! 👋"@),
{
    write_spaced_line(out, String::from_str("Goodbye! 👋"));
}

/// The greeting line of the chat screen.
pub open spec fn greeting() -> ActionView {
    ActionView::WriteLine(
        seq![
            plain("💬 Chat started! Type "@),
            ("exit"@, TextStyle::Red),
            plain(", "@),
            ("quit"@, TextStyle::Red),
            plain(", or press "@),
            ("Ctrl+C"@, TextStyle::Red),
            plain(" to end the conversation."@),
        ],
    )
}

/// Writes the greeting line.
pub fn write_greeting(out: &mut TermOutput)
    ensures
        final(out)@ == old(out)@.push(greeting()),
{
    let mut v: Vec<Segment> = Vec::new();
    v.push(seg("💬 Chat started! Type ", TextStyle::Plain));
    v.push(seg("exit", TextStyle::Red));
    v.push(seg(", ", TextStyle::Plain));
    v.push(seg("quit", TextStyle::Red));
    v.push(seg(", or press ", TextStyle::Plain));
    v.push(seg("Ctrl+C", TextStyle::Red));
    v.push(seg(" to end the conversation.", TextStyle::Plain));
    assert(segment_views(v@) =~= seq![
        plain("💬 Chat started! Type "@),
        ("exit"@, TextStyle::Red),
        plain(", "@),
        ("quit"@, TextStyle::Red),
        plain(", or press "@),
        ("Ctrl+C"@, TextStyle::Red),
        plain(" to end the conversation."@),
    ]);
    out.write_segments(v);
}

/// Writes the separator line.
pub fn write_separator(out: &mut TermOutput)
    ensures
        final(out)@ == old(out)@.push(line(separator())),
{
    out.write_line(String::from_str("───────────────────────────────────────────────────────────────────"));
}

/// `t` is the four-letter word `w` (given in lower case) written in any mix
/// of ASCII upper and lower case.
pub open spec fn spelled_any_case(t: Seq<char>, w: Seq<char>) -> bool {
    &&& t.len() == 4
    &&& forall|i: int| 0 <= i < 4 ==> (#[trigger] t[i] == w[i] || t[i] as u32 + 32 == w[i] as u32)
}

/// What a typed line asks for, taken on the line with surrounding whitespace
/// removed: nothing when that is empty; the end of the conversation exactly
/// when it is `exit` or `quit` in any ASCII case; otherwise the command it
/// spells when it starts with a slash, and else a chat message carrying it.
pub proof fn law_typed_line_meaning(input: Seq<char>)
    ensures
        trim_ws(input).len() == 0 ==> input_action(input) == InputActionView::Skip,
        trim_ws(input).len() > 0 ==> (input_action(input) == InputActionView::Exit <==> (
        spelled_any_case(trim_ws(input), seq!['e', 'x', 'i', 't']) || spelled_any_case(
            trim_ws(input),
            seq!['q', 'u', 'i', 't'],
        ))),
        trim_ws(input).len() > 0 && !spelled_any_case(trim_ws(input), seq!['e', 'x', 'i', 't'])
            && !spelled_any_case(trim_ws(input), seq!['q', 'u', 'i', 't']) ==> input_action(input)
            == if trim_ws(input)[0] == '/' {
            InputActionView::Command(trim_ws(input))
        } else {
            InputActionView::Chat(trim_ws(input))
        },
{
    reveal_strlit("exit");
    reveal_strlit("quit");
    let t = trim_ws(input);
    lemma_ignore_case_word(t, "exit"@);
    lemma_ignore_case_word(t, "quit"@);
    assert("exit"@ =~= seq!['e', 'x', 'i', 't']);
    assert("quit"@ =~= seq!['q', 'u', 'i', 't']);
}

/// Comparing without ASCII case to a word of four lower-case letters is
/// spelling that word in any case.
proof fn lemma_ignore_case_word(t: Seq<char>, w: Seq<char>)
    requires
        w.len() == 4,
        forall|i: int| 0 <= i < 4 ==> 97 <= (#[trigger] w[i]) as u32 <= 122,
    ensures
        eq_ignore_ascii_case(t, w) <==> spelled_any_case(t, w),
{
    if eq_ignore_ascii_case(t, w) {
        assert forall|i: int| 0 <= i < 4 implies (#[trigger] t[i] == w[i] || t[i] as u32 + 32
            == w[i] as u32) by {
            assert(ascii_lower(t[i]) == ascii_lower(w[i]));
            assert(ascii_lower(w[i]) == w[i]);
            if !(65 <= t[i] as u32 && t[i] as u32 <= 90) {
                assert(ascii_lower(t[i]) == t[i]);
            }
        }
    }
    if spelled_any_case(t, w) {
        assert forall|i: int| 0 <= i < t.len() implies ascii_lower(#[trigger] t[i]) == ascii_lower(
            w[i],
        ) by {
            assert(ascii_lower(w[i]) == w[i]);
            if t[i] != w[i] {
                assert(t[i] as u32 + 32 == w[i] as u32);
                assert(65 <= t[i] as u32 <= 90);
            }
        }
    }
}

} // verus!
