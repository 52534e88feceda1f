//! The line editor: reading one line key by key, with a dropdown that
//! completes slash commands.

use vstd::prelude::*;
use vstd::string::*;
use crate::terminal::{
    ActionView, Segment, SegmentView, TermAction, TermOutput, TextStyle, blank, plain, seg,
    seg_owned, segment_views,
};
use crate::text::{has_prefix, starts_with};

verus! {

/// The slash commands the editor completes.
pub open spec fn command_list() -> Seq<Seq<char>> {
    seq![
        "/clear"@,
        "/new"@,
        "/save"@,
        "/delete"@,
        "/list"@,
        "/resume"@,
        "/role"@,
        "/model"@,
    ]
}

/// The predicate "has `input` as a prefix".
pub open spec fn completes(input: Seq<char>) -> spec_fn(Seq<char>) -> bool {
    |c: Seq<char>| has_prefix(c, input)
}

/// The commands that begin with `input`, in list order.
pub open spec fn filtered_commands(input: Seq<char>) -> Seq<Seq<char>> {
    command_list().filter(completes(input))
}

/// The commands that begin with `input`, in list order.
pub fn get_filtered_commands(input: &str) -> (r: Vec<String>)
    ensures
        r@.map_values(|s: String| s@) == filtered_commands(input@),
{
    let all: [&str; 8] = ["/clear", "/new", "/save", "/delete", "/list", "/resume", "/role", "/model"];
    let mut r: Vec<String> = Vec::new();
    let mut i: usize = 0;
    let ghost cl = command_list();
    assert(forall|k: int| 0 <= k < 8 ==> #[trigger] all@[k]@ == cl[k]);
    while i < 8
        invariant
            i <= 8,
            cl == command_list(),
            forall|k: int| 0 <= k < 8 ==> #[trigger] all@[k]@ == cl[k],
            r@.map_values(|s: String| s@) == cl.take(i as int).filter(completes(input@)),
        decreases 8 - i,
    {
        let ghost before = r@.map_values(|s: String| s@);
        let c = all[i];
        let keep = starts_with(c, input);
        if keep {
            let owned = String::from_str(c);
            let ghost cv = owned@;
            r.push(owned);
            assert(r@.map_values(|s: String| s@) =~= before.push(cv));
        } else {
            assert(r@.map_values(|s: String| s@) =~= before);
        }
        proof {
            reveal(Seq::filter);
            assert(cl.take(i + 1).drop_last() =~= cl.take(i as int));
            assert(cl.take(i + 1).last() == cl[i as int]);
        }
        i = i + 1;
    }
    assert(cl.take(8) =~= cl);
    r
}

/// A key the editor reacts to.
pub enum Key {
    Enter,
    Escape,
    ArrowDown,
    ArrowUp,
    Backspace,
    Char(char),
    /// Any other key; it is ignored.
    Other,
}

/// The editor's state.
pub struct InputReader {
    pub input: String,
    pub show_dropdown: bool,
    pub selected_index: usize,
    pub dropdown_lines: usize,
}

/// The spec-level value of the editor's state.
pub struct ReaderView {
    pub input: Seq<char>,
    pub show_dropdown: bool,
    pub selected_index: int,
    pub dropdown_lines: int,
}

impl View for InputReader {
    type V = ReaderView;

    open spec fn view(&self) -> ReaderView {
        ReaderView {
            input: self.input@,
            show_dropdown: self.show_dropdown,
            selected_index: self.selected_index as int,
            dropdown_lines: self.dropdown_lines as int,
        }
    }
}

/// `s` begins with a slash.
pub open spec fn slash_prefixed(s: Seq<char>) -> bool {
    s.len() > 0 && s[0] == '/'
}

/// What a key does to the editor: the next state and, for Enter, the line read.
pub open spec fn key_step(r: ReaderView, key: KeyView) -> (ReaderView, Option<Seq<char>>) {
    let f = filtered_commands(r.input);
    match key {
        KeyView::Enter => {
            let input = if r.show_dropdown && f.len() > 0 && r.selected_index < f.len() {
                f[r.selected_index]
            } else {
                r.input
            };
            (ReaderView { input, ..r }, Some(input))
        },
        KeyView::Escape => (ReaderView { show_dropdown: false, selected_index: 0, ..r }, None),
        KeyView::ArrowDown => if r.show_dropdown && f.len() > 0 {
            (ReaderView { selected_index: (r.selected_index + 1) % (f.len() as int), ..r }, None)
        } else {
            (r, None)
        },
        KeyView::ArrowUp => if r.show_dropdown && f.len() > 0 {
            (
                ReaderView {
                    selected_index: if r.selected_index == 0 {
                        f.len() - 1
                    } else {
                        r.selected_index - 1
                    },
                    ..r
                },
                None,
            )
        } else {
            (r, None)
        },
        KeyView::Backspace => if r.input.len() > 0 {
            let input = r.input.drop_last();
            if !slash_prefixed(input) {
                (ReaderView { input, show_dropdown: false, selected_index: 0, ..r }, None)
            } else {
                (ReaderView { input, ..r }, None)
            }
        } else {
            (r, None)
        },
        KeyView::Char(c) => {
            let input = r.input.push(c);
            if slash_prefixed(input) {
                (ReaderView { input, show_dropdown: true, selected_index: 0, ..r }, None)
            } else {
                (ReaderView { input, show_dropdown: false, ..r }, None)
            }
        },
        KeyView::Other => (r, None),
    }
}

/// The spec-level value of a key.
pub enum KeyView {
    Enter,
    Escape,
    ArrowDown,
    ArrowUp,
    Backspace,
    Char(char),
    Other,
}

impl View for Key {
    type V = KeyView;

    open spec fn view(&self) -> KeyView {
        match self {
            Key::Enter => KeyView::Enter,
            Key::Escape => KeyView::Escape,
            Key::ArrowDown => KeyView::ArrowDown,
            Key::ArrowUp => KeyView::ArrowUp,
            Key::Backspace => KeyView::Backspace,
            Key::Char(c) => KeyView::Char(*c),
            Key::Other => KeyView::Other,
        }
    }
}

/// The view of an optional line.
pub open spec fn line_view(o: Option<String>) -> Option<Seq<char>> {
    match o {
        Some(s) => Some(s@),
        None => None,
    }
}

/// `n` copies of the actions `a`.
pub open spec fn repeat(a: Seq<ActionView>, n: int) -> Seq<ActionView>
    decreases n,
{
    if n <= 0 {
        Seq::<ActionView>::empty()
    } else {
        repeat(a, n - 1) + a
    }
}

/// Erasing `n` dropdown lines below the cursor and coming back up.
pub open spec fn erase_below(n: int) -> Seq<ActionView> {
    repeat(seq![ActionView::MoveCursorDown(1), ActionView::ClearLine], n) + repeat(
        seq![ActionView::MoveCursorUp(1)],
        n,
    )
}

/// The prompt line for `input`.
pub open spec fn prompt_actions(input: Seq<char>) -> Seq<ActionView> {
    seq![ActionView::ClearLine] + (if input.len() == 0 {
        seq![blank()]
    } else {
        Seq::<ActionView>::empty()
    }) + seq![ActionView::WriteStr(seq![("You"@, TextStyle::Green), plain(": "@ + input)])]
}

/// The dropdown entry for `cmd`, highlighted or not.
pub open spec fn dropdown_entry(cmd: Seq<char>, selected: bool) -> ActionView {
    if selected {
        ActionView::WriteLine(seq![plain("  → "@), (cmd, TextStyle::Bold)])
    } else {
        ActionView::WriteLine(seq![plain("    "@), (cmd, TextStyle::Dim)])
    }
}

/// The dropdown entries for `cmds`, with entry `sel` highlighted.
pub open spec fn dropdown_entries(cmds: Seq<Seq<char>>, sel: int) -> Seq<ActionView> {
    Seq::new(cmds.len(), |i: int| dropdown_entry(cmds[i], i == sel))
}

/// Drawing the dropdown for `cmds`: an empty line, the entries, then the
/// cursor back up on the prompt line.
pub open spec fn dropdown_actions(cmds: Seq<Seq<char>>, sel: int) -> Seq<ActionView> {
    if cmds.len() == 0 {
        Seq::<ActionView>::empty()
    } else {
        seq![blank()] + dropdown_entries(cmds, sel) + repeat(
            seq![ActionView::MoveCursorUp(1)],
            cmds.len() as int,
        ) + seq![ActionView::MoveCursorUp(1)]
    }
}

/// Closing the line: erase a drawn dropdown and the line below it, then show
/// the line read.
pub open spec fn finalize_actions(dropdown_lines: int, result: Seq<char>) -> Seq<ActionView> {
    (if dropdown_lines > 0 {
        erase_below(dropdown_lines) + seq![
            ActionView::MoveCursorDown(1),
            ActionView::ClearLine,
            ActionView::MoveCursorUp(1),
        ]
    } else {
        Seq::<ActionView>::empty()
    }) + seq![
        ActionView::ClearLine,
        ActionView::WriteStr(seq![plain("You: "@ + result)]),
        blank(),
    ]
}

fn push_repeat_down_clear(out: &mut TermOutput, n: usize)
    ensures
        final(out)@ == old(out)@ + repeat(
            seq![ActionView::MoveCursorDown(1), ActionView::ClearLine],
            n as int,
        ),
{
    let mut i: usize = 0;
    assert(old(out)@ + repeat(seq![ActionView::MoveCursorDown(1), ActionView::ClearLine], 0)
        =~= old(out)@);
    while i < n
        invariant
            i <= n,
            out@ == old(out)@ + repeat(
                seq![ActionView::MoveCursorDown(1), ActionView::ClearLine],
                i as int,
            ),
        decreases n - i,
    {
        out.push(TermAction::MoveCursorDown(1));
        out.push(TermAction::ClearLine);
        i = i + 1;
        assert(out@ =~= old(out)@ + repeat(
            seq![ActionView::MoveCursorDown(1), ActionView::ClearLine],
            i as int,
        ));
    }
}

fn push_repeat_up(out: &mut TermOutput, n: usize)
    ensures
        final(out)@ == old(out)@ + repeat(seq![ActionView::MoveCursorUp(1)], n as int),
{
    let mut i: usize = 0;
    assert(old(out)@ + repeat(seq![ActionView::MoveCursorUp(1)], 0) =~= old(out)@);
    while i < n
        invariant
            i <= n,
            out@ == old(out)@ + repeat(seq![ActionView::MoveCursorUp(1)], i as int),
        decreases n - i,
    {
        out.push(TermAction::MoveCursorUp(1));
        i = i + 1;
        assert(out@ =~= old(out)@ + repeat(seq![ActionView::MoveCursorUp(1)], i as int));
    }
}

fn slash_first(s: &String) -> (b: bool)
    ensures
        b == slash_prefixed(s@),
{
    let r = starts_with(s.as_str(), "/");
    proof {
        reveal_strlit("/");
        if slash_prefixed(s@) {
            assert(s@.subrange(0, 1) =~= "/"@);
        }
        if r {
            assert(s@.subrange(0, 1)[0] == "/"@[0]);
        }
    }
    r
}

impl InputReader {
    /// A reader with empty input and no dropdown.
    pub fn new() -> (r: InputReader)
        ensures
            r@ == fresh_reader(),
    {
        InputReader {
            input: String::new(),
            show_dropdown: false,
            selected_index: 0,
            dropdown_lines: 0,
        }
    }

    /// Starts reading a new line: empty input, no dropdown.
    pub fn begin_line(&mut self)
        ensures
            final(self)@ == fresh_reader(),
    {
        self.input = String::new();
        self.show_dropdown = false;
        self.selected_index = 0;
        self.dropdown_lines = 0;
    }

    /// Reacts to one key; returns the line read when the key ends the line.
    pub fn handle_key(&mut self, key: Key) -> (r: Option<String>)
        ensures
            (final(self)@, line_view(r)) == key_step(old(self)@, key@),
    {
        match key {
            Key::Enter => {
                if self.show_dropdown {
                    let filtered = get_filtered_commands(self.input.as_str());
                    if filtered.len() > 0 && self.selected_index < filtered.len() {
                        assert(filtered@[self.selected_index as int]@ == filtered_commands(
                            old(self)@.input,
                        )[self.selected_index as int]);
                        self.input = filtered[self.selected_index].clone();
                    }
                }
                Some(self.input.clone())
            },
            Key::Escape => {
                self.show_dropdown = false;
                self.selected_index = 0;
                None
            },
            Key::ArrowDown => {
                if self.show_dropdown {
                    let filtered = get_filtered_commands(self.input.as_str());
                    if filtered.len() > 0 {
                        let n = filtered.len();
                        proof {
                            vstd::arithmetic::div_mod::lemma_add_mod_noop(
                                self.selected_index as int,
                                1,
                                n as int,
                            );
                            vstd::arithmetic::div_mod::lemma_mod_bound(self.selected_index as int, n as int);
                            if n == 1 {
                                vstd::arithmetic::div_mod::lemma_mod_self_0(1);
                            } else {
                                vstd::arithmetic::div_mod::lemma_small_mod(1, n as nat);
                            }
                            vstd::arithmetic::div_mod::lemma_mod_twice(
                                (self.selected_index % n) as int + 1,
                                n as int,
                            );
                        }
                        self.selected_index = (self.selected_index % n + 1) % n;
                    }
                }
                None
            },
            Key::ArrowUp => {
                if self.show_dropdown {
                    let filtered = get_filtered_commands(self.input.as_str());
                    if filtered.len() > 0 {
                        self.selected_index = if self.selected_index == 0 {
                            filtered.len() - 1
                        } else {
                            self.selected_index - 1
                        };
                    }
                }
                None
            },
            Key::Backspace => {
                if self.input.unicode_len() > 0 {
                    self.input.pop();
                    if !slash_first(&self.input) {
                        self.show_dropdown = false;
                        self.selected_index = 0;
                    }
                }
                None
            },
            Key::Char(c) => {
                self.input.push(c);
                if slash_first(&self.input) {
                    self.show_dropdown = true;
                    self.selected_index = 0;
                } else {
                    self.show_dropdown = false;
                }
                None
            },
            Key::Other => None,
        }
    }

    /// Erases a drawn dropdown.
    pub fn clear_dropdown(&mut self, out: &mut TermOutput)
        ensures
            final(self)@ == (ReaderView { dropdown_lines: 0, ..old(self)@ }),
            final(out)@ == old(out)@ + (if old(self)@.dropdown_lines > 0 {
                erase_below(old(self)@.dropdown_lines)
            } else {
                Seq::<ActionView>::empty()
            }),
    {
        if self.dropdown_lines > 0 {
            push_repeat_down_clear(out, self.dropdown_lines);
            push_repeat_up(out, self.dropdown_lines);
            self.dropdown_lines = 0;
            assert(final(out)@ =~= old(out)@ + erase_below(old(self)@.dropdown_lines));
        } else {
            assert(final(out)@ =~= old(out)@);
        }
    }

    /// Draws the prompt line.
    pub fn render(&self, out: &mut TermOutput)
        ensures
            final(out)@ == old(out)@ + prompt_actions(self@.input),
    {
        out.push(TermAction::ClearLine);
        if self.input.unicode_len() == 0 {
            out.write_blank();
        }
        let mut rest = String::from_str(": ");
        rest.append(self.input.as_str());
        let mut v: Vec<Segment> = Vec::new();
        v.push(seg("You", TextStyle::Green));
        v.push(seg_owned(rest, TextStyle::Plain));
        assert(segment_views(v@) =~= seq![("You"@, TextStyle::Green), plain(": "@ + self@.input)]);
        out.push(TermAction::WriteStr(v));
        assert(final(out)@ =~= old(out)@ + prompt_actions(self@.input));
    }

    /// Draws the dropdown of the commands the input completes.
    pub fn update_dropdown(&mut self, out: &mut TermOutput)
        ensures
            final(out)@ == old(out)@ + dropdown_actions(
                filtered_commands(old(self)@.input),
                old(self)@.selected_index,
            ),
            final(self)@ == (ReaderView {
                dropdown_lines: if filtered_commands(old(self)@.input).len() > 0 {
                    filtered_commands(old(self)@.input).len() as int
                } else {
                    old(self)@.dropdown_lines
                },
                ..old(self)@
            }),
    {
        let filtered = get_filtered_commands(self.input.as_str());
        let ghost cmds = filtered_commands(old(self)@.input);
        if filtered.len() > 0 {
            let num_lines = filtered.len();
            self.dropdown_lines = num_lines;
            out.write_blank();
            let mut i: usize = 0;
            while i < num_lines
                invariant
                    i <= num_lines,
                    num_lines == filtered@.len(),
                    filtered@.map_values(|s: String| s@) == cmds,
                    self.selected_index == old(self).selected_index,
                    out@ == old(out)@ + seq![blank()] + dropdown_entries(cmds, self.selected_index as int).take(i as int),
                decreases num_lines - i,
            {
                let ghost before = out@;
                let mut v: Vec<Segment> = Vec::new();
                assert(filtered@[i as int]@ == cmds[i as int]);
                if i == self.selected_index {
                    v.push(seg("  → ", TextStyle::Plain));
                    v.push(seg_owned(filtered[i].clone(), TextStyle::Bold));
                } else {
                    v.push(seg("    ", TextStyle::Plain));
                    v.push(seg_owned(filtered[i].clone(), TextStyle::Dim));
                }
                proof {
                    if i == self.selected_index {
                        assert(segment_views(v@) =~= seq![plain("  → "@), (cmds[i as int], TextStyle::Bold)]);
                    } else {
                        assert(segment_views(v@) =~= seq![plain("    "@), (cmds[i as int], TextStyle::Dim)]);
                    }
                }
                out.write_segments(v);
                proof {
                    let es = dropdown_entries(cmds, self.selected_index as int);
                    assert(es.take(i + 1) =~= es.take(i as int).push(es[i as int]));
                    assert(out@ =~= old(out)@ + seq![blank()] + es.take(i + 1));
                }
                i = i + 1;
            }
            push_repeat_up(out, num_lines);
            out.push(TermAction::MoveCursorUp(1));
            assert(dropdown_entries(cmds, self.selected_index as int).take(num_lines as int)
                =~= dropdown_entries(cmds, self.selected_index as int));
            assert(final(out)@ =~= old(out)@ + dropdown_actions(cmds, old(self)@.selected_index));
        } else {
            assert(final(out)@ =~= old(out)@);
        }
    }

    /// Redraws the editor before the next key: erases the old dropdown,
    /// draws the prompt, and draws the dropdown when it is open.
    pub fn redraw(&mut self, out: &mut TermOutput)
        ensures
            final(self)@.input == old(self)@.input,
            final(self)@.show_dropdown == old(self)@.show_dropdown,
            final(self)@.selected_index == old(self)@.selected_index,
            final(out)@ == old(out)@ + (if old(self)@.dropdown_lines > 0 {
                erase_below(old(self)@.dropdown_lines)
            } else {
                Seq::<ActionView>::empty()
            }) + prompt_actions(old(self)@.input) + (if old(self)@.show_dropdown {
                dropdown_actions(filtered_commands(old(self)@.input), old(self)@.selected_index)
            } else {
                Seq::<ActionView>::empty()
            }),
    {
        self.clear_dropdown(out);
        self.render(out);
        if self.show_dropdown {
            self.update_dropdown(out);
        } else {
            assert(final(out)@ =~= out@ + Seq::<ActionView>::empty());
        }
    }

    /// Erases a drawn dropdown and shows the line read.
    pub fn finalize_input(&self, result: &str, out: &mut TermOutput)
        ensures
            final(out)@ == old(out)@ + finalize_actions(self@.dropdown_lines, result@),
    {
        if self.dropdown_lines > 0 {
            push_repeat_down_clear(out, self.dropdown_lines);
            push_repeat_up(out, self.dropdown_lines);
            out.push(TermAction::MoveCursorDown(1));
            out.push(TermAction::ClearLine);
            out.push(TermAction::MoveCursorUp(1));
        }
        out.push(TermAction::ClearLine);
        let mut text = String::from_str("You: ");
        text.append(result);
        let mut v: Vec<Segment> = Vec::new();
        v.push(seg_owned(text, TextStyle::Plain));
        assert(segment_views(v@) =~= seq![plain("You: "@ + result@)]);
        out.push(TermAction::WriteStr(v));
        out.write_blank();
        assert(final(out)@ =~= old(out)@ + finalize_actions(self@.dropdown_lines, result@));
    }
}


// ---------------------------------------------------------------------------
// Laws of the editor
// ---------------------------------------------------------------------------

/// The editor's state is consistent: an open dropdown means the input starts
/// with a slash, and the highlighted entry is the first one or an entry of the
/// open dropdown.
pub open spec fn editor_ok(r: ReaderView) -> bool {
    &&& r.selected_index >= 0
    &&& r.show_dropdown ==> slash_prefixed(r.input)
    &&& r.selected_index == 0 || (r.show_dropdown && r.selected_index < filtered_commands(
        r.input,
    ).len())
}

proof fn lemma_filter_len_mono<A>(s: Seq<A>, p: spec_fn(A) -> bool, q: spec_fn(A) -> bool)
    requires
        forall|x: A| #[trigger] p(x) ==> q(x),
    ensures
        s.filter(p).len() <= s.filter(q).len(),
    decreases s.len(),
{
    reveal(Seq::filter);
    if s.len() > 0 {
        lemma_filter_len_mono(s.drop_last(), p, q);
    }
}

proof fn lemma_filter_member<A>(s: Seq<A>, p: spec_fn(A) -> bool, i: int)
    requires
        0 <= i < s.filter(p).len(),
    ensures
        s.contains(s.filter(p)[i]),
        p(s.filter(p)[i]),
    decreases s.len(),
{
    reveal(Seq::filter);
    if s.len() > 0 {
        let d = s.drop_last();
        if i < d.filter(p).len() {
            lemma_filter_member(d, p, i);
            let k = choose|k: int| 0 <= k < d.len() && d[k] == d.filter(p)[i];
            assert(s[k] == d[k]);
        } else {
            assert(s[s.len() - 1] == s.last());
        }
    }
}

/// Removing the last character keeps every completion: the shorter input has
/// at least as many.
proof fn lemma_shorter_input_completes_more(input: Seq<char>)
    requires
        input.len() > 0,
    ensures
        filtered_commands(input).len() <= filtered_commands(input.drop_last()).len(),
{
    let p = completes(input);
    let q = completes(input.drop_last());
    assert forall|c: Seq<char>| #[trigger] p(c) implies q(c) by {
        assert(c.subrange(0, input.len() - 1) =~= c.subrange(0, input.len() as int).drop_last());
    }
    lemma_filter_len_mono(command_list(), p, q);
}

/// Every key but Enter keeps the editor's state consistent.
pub proof fn law_editor_invariant(r: ReaderView, key: KeyView)
    requires
        editor_ok(r),
        key != KeyView::Enter,
    ensures
        editor_ok(key_step(r, key).0),
{
    match key {
        KeyView::Backspace => {
            if r.input.len() > 0 {
                lemma_shorter_input_completes_more(r.input);
                let input = r.input.drop_last();
                if slash_prefixed(input) {
                    assert(input[0] == r.input[0]);
                }
            }
        },
        KeyView::Char(c) => {
            let input = r.input.push(c);
            if !slash_prefixed(input) && r.input.len() > 0 {
                assert(input[0] == r.input[0]);
            }
        },
        _ => {},
    }
}

/// Enter on an open dropdown with entries reads the highlighted entry, which
/// is one of the commands.
pub proof fn law_enter_completes(r: ReaderView)
    requires
        editor_ok(r),
        r.show_dropdown,
        filtered_commands(r.input).len() > 0,
    ensures
        key_step(r, KeyView::Enter).1 == Some(filtered_commands(r.input)[r.selected_index]),
        command_list().contains(filtered_commands(r.input)[r.selected_index]),
        has_prefix(filtered_commands(r.input)[r.selected_index], r.input),
{
    lemma_filter_member(command_list(), completes(r.input), r.selected_index);
}

/// Moving the highlight down and then up returns it to where it was.
pub proof fn law_down_then_up(r: ReaderView)
    requires
        editor_ok(r),
        r.show_dropdown,
        filtered_commands(r.input).len() > 0,
    ensures
        key_step(key_step(r, KeyView::ArrowDown).0, KeyView::ArrowUp).0 == r,
{
    let n = filtered_commands(r.input).len() as int;
    let down = key_step(r, KeyView::ArrowDown).0;
    let k = r.selected_index + 1;
    if k < n {
        vstd::arithmetic::div_mod::lemma_small_mod(k as nat, n as nat);
    } else {
        assert(k == n);
        vstd::arithmetic::div_mod::lemma_mod_self_0(n);
    }
}

/// The editor's state when a line begins.
pub open spec fn fresh_reader() -> ReaderView {
    ReaderView {
        input: Seq::<char>::empty(),
        show_dropdown: false,
        selected_index: 0,
        dropdown_lines: 0,
    }
}

/// The state after typing the characters `cs` one by one from `r`.
pub open spec fn type_chars(r: ReaderView, cs: Seq<char>) -> ReaderView
    decreases cs.len(),
{
    if cs.len() == 0 {
        r
    } else {
        key_step(type_chars(r, cs.drop_last()), KeyView::Char(cs.last())).0
    }
}

proof fn lemma_typed_plain(cs: Seq<char>)
    requires
        cs.len() == 0 || cs[0] != '/',
    ensures
        type_chars(fresh_reader(), cs).input == cs,
        !type_chars(fresh_reader(), cs).show_dropdown,
    decreases cs.len(),
{
    if cs.len() > 0 {
        let d = cs.drop_last();
        if d.len() > 0 {
            assert(d[0] == cs[0]);
        }
        lemma_typed_plain(d);
        assert(d.push(cs.last()) =~= cs);
    }
}

/// A line that does not start with a slash is read exactly as typed: typing
/// its characters on a fresh line and pressing Enter gives it back.
pub proof fn law_typed_line_is_read(cs: Seq<char>)
    requires
        cs.len() == 0 || cs[0] != '/',
    ensures
        key_step(type_chars(fresh_reader(), cs), KeyView::Enter).1 == Some(cs),
{
    lemma_typed_plain(cs);
}

/// Typing a character appends it to the line and reads nothing. When the line
/// then starts with a slash, the dropdown is open with its first entry
/// highlighted, whatever was highlighted before; otherwise it is closed.
pub proof fn law_typing_resets_the_highlight(r: ReaderView, c: char)
    ensures
        key_step(r, KeyView::Char(c)).0.input == r.input.push(c),
        key_step(r, KeyView::Char(c)).1 is None,
        r.input.push(c)[0] == '/' ==> key_step(r, KeyView::Char(c)).0.show_dropdown
            && key_step(r, KeyView::Char(c)).0.selected_index == 0,
        r.input.push(c)[0] != '/' ==> !key_step(r, KeyView::Char(c)).0.show_dropdown,
        key_step(r, KeyView::Char(c)).0.dropdown_lines == r.dropdown_lines,
{
    assert(r.input.push(c).len() > 0);
}

/// After typing a character that leaves the line starting with a slash,
/// Enter reads the first command (in list order) that the line completes to,
/// when there is one.
pub proof fn law_enter_after_typing_reads_first_completion(r: ReaderView, c: char)
    requires
        r.input.push(c)[0] == '/',
        filtered_commands(r.input.push(c)).len() > 0,
    ensures
        key_step(key_step(r, KeyView::Char(c)).0, KeyView::Enter).1 == Some(
            filtered_commands(r.input.push(c))[0],
        ),
        command_list().contains(filtered_commands(r.input.push(c))[0]),
        has_prefix(filtered_commands(r.input.push(c))[0], r.input.push(c)),
        forall|k: int|
            0 <= k < command_list().len() && has_prefix(command_list()[k], r.input.push(c))
                ==> command_list().subrange(0, k + 1).contains(filtered_commands(r.input.push(c))[0]),
{
    assert(r.input.push(c).len() > 0);
    let input = r.input.push(c);
    lemma_filter_member(command_list(), completes(input), 0);
    assert forall|k: int|
        0 <= k < command_list().len() && has_prefix(command_list()[k], input) implies command_list().subrange(
        0,
        k + 1,
    ).contains(filtered_commands(input)[0]) by {
        lemma_filter_first(command_list(), completes(input), k);
    }
}

/// The first element a selection keeps comes no later than any element it keeps.
proof fn lemma_filter_first<A>(s: Seq<A>, p: spec_fn(A) -> bool, k: int)
    requires
        0 <= k < s.len(),
        p(s[k]),
    ensures
        s.filter(p).len() > 0,
        s.subrange(0, k + 1).contains(s.filter(p)[0]),
    decreases s.len(),
{
    reveal(Seq::filter);
    let d = s.drop_last();
    if k < s.len() - 1 {
        lemma_filter_first(d, p, k);
        assert(d.filter(p).len() > 0);
        assert(s.filter(p) == d.filter(p).push(s.last()) || s.filter(p) == d.filter(p));
        assert(s.filter(p)[0] == d.filter(p)[0]);
        assert(d.subrange(0, k + 1) =~= s.subrange(0, k + 1));
    } else {
        if d.filter(p).len() > 0 {
            assert(s.filter(p)[0] == d.filter(p)[0]);
            lemma_filter_member(d, p, 0);
            let w = choose|w: int| 0 <= w < d.len() && d[w] == d.filter(p)[0];
            assert(s.subrange(0, k + 1)[w] == d[w]);
        } else {
            assert(s.filter(p) =~= seq![s.last()]);
            assert(s.subrange(0, k + 1)[k] == s[k]);
        }
    }
}

/// The drawn dropdown marks exactly the highlighted entry: after an empty
/// line, entry `i` is drawn as an arrow and the command in bold when `i` is
/// the highlighted index, and indented and dim otherwise; then the cursor
/// goes back up one line per entry and once more.
pub proof fn law_dropdown_marks_the_highlight(cmds: Seq<Seq<char>>, sel: int)
    requires
        cmds.len() > 0,
    ensures
        dropdown_actions(cmds, sel).len() == 2 * cmds.len() + 2,
        dropdown_actions(cmds, sel)[0] == ActionView::WriteLine(Seq::<SegmentView>::empty()),
        forall|i: int|
            0 <= i < cmds.len() ==> #[trigger] dropdown_actions(cmds, sel)[1 + i] == if i == sel {
                ActionView::WriteLine(seq![("  → "@, TextStyle::Plain), (cmds[i], TextStyle::Bold)])
            } else {
                ActionView::WriteLine(seq![("    "@, TextStyle::Plain), (cmds[i], TextStyle::Dim)])
            },
        forall|j: int|
            1 + cmds.len() <= j < 2 * cmds.len() + 2 ==> #[trigger] dropdown_actions(cmds, sel)[j]
                == ActionView::MoveCursorUp(1),
{
    lemma_repeat_up(cmds.len() as int);
    let a = dropdown_actions(cmds, sel);
    let es = dropdown_entries(cmds, sel);
    let ups = repeat(seq![ActionView::MoveCursorUp(1)], cmds.len() as int);
    assert(a == seq![blank()] + es + ups + seq![ActionView::MoveCursorUp(1)]);
    assert forall|i: int| 0 <= i < cmds.len() implies #[trigger] a[1 + i] == es[i] by {}
    assert forall|j: int| 1 + cmds.len() <= j < 2 * cmds.len() + 2 implies #[trigger] a[j]
        == ActionView::MoveCursorUp(1) by {
        if j < 2 * cmds.len() + 1 {
            assert(a[j] == ups[j - 1 - cmds.len()]);
        }
    }
}

proof fn lemma_repeat_up(n: int)
    requires
        n >= 0,
    ensures
        repeat(seq![ActionView::MoveCursorUp(1)], n).len() == n,
        forall|k: int|
            0 <= k < n ==> #[trigger] repeat(seq![ActionView::MoveCursorUp(1)], n)[k]
                == ActionView::MoveCursorUp(1),
    decreases n,
{
    if n > 0 {
        lemma_repeat_up(n - 1);
        let r = repeat(seq![ActionView::MoveCursorUp(1)], n - 1);
        assert(repeat(seq![ActionView::MoveCursorUp(1)], n) == r + seq![ActionView::MoveCursorUp(1)]);
    }
}

} // verus!
