//! What the client shows on the terminal, as a list of drawing actions the
//! caller carries out in order.

use vstd::prelude::*;
use vstd::string::*;
use crate::text::{int_decimal, push_int};

verus! {

/// How a piece of text is styled.
#[derive(PartialEq, Eq, Clone, Copy)]
pub enum TextStyle {
    Plain,
    Red,
    Green,
    Yellow,
    Blue,
    Dim,
    Bold,
    CyanBold,
    BlueBold,
}

/// A styled piece of text.
pub struct Segment {
    pub text: String,
    pub style: TextStyle,
}

/// One terminal action.
pub enum TermAction {
    /// Write the segments, then end the line.
    WriteLine(Vec<Segment>),
    /// Write the segments without ending the line.
    WriteStr(Vec<Segment>),
    /// Clear the line the cursor is on.
    ClearLine,
    /// Clear the whole screen.
    ClearScreen,
    /// Move the cursor up by the given number of lines.
    MoveCursorUp(usize),
    /// Move the cursor down by the given number of lines.
    MoveCursorDown(usize),
}

/// The spec-level value of a segment.
pub type SegmentView = (Seq<char>, TextStyle);

/// The spec-level value of an action.
pub enum ActionView {
    WriteLine(Seq<SegmentView>),
    WriteStr(Seq<SegmentView>),
    ClearLine,
    ClearScreen,
    MoveCursorUp(int),
    MoveCursorDown(int),
}

impl View for Segment {
    type V = SegmentView;

    open spec fn view(&self) -> SegmentView {
        (self.text@, self.style)
    }
}

/// The views of a sequence of segments.
pub open spec fn segment_views(v: Seq<Segment>) -> Seq<SegmentView> {
    v.map_values(|s: Segment| s@)
}

impl View for TermAction {
    type V = ActionView;

    open spec fn view(&self) -> ActionView {
        match self {
            TermAction::WriteLine(v) => ActionView::WriteLine(segment_views(v@)),
            TermAction::WriteStr(v) => ActionView::WriteStr(segment_views(v@)),
            TermAction::ClearLine => ActionView::ClearLine,
            TermAction::ClearScreen => ActionView::ClearScreen,
            TermAction::MoveCursorUp(n) => ActionView::MoveCursorUp(*n as int),
            TermAction::MoveCursorDown(n) => ActionView::MoveCursorDown(*n as int),
        }
    }
}

/// The actions the client has produced and not yet carried out.
pub struct TermOutput {
    pub actions: Vec<TermAction>,
}

impl View for TermOutput {
    type V = Seq<ActionView>;

    open spec fn view(&self) -> Seq<ActionView> {
        self.actions@.map_values(|a: TermAction| a@)
    }
}

/// An unstyled segment.
pub open spec fn plain(s: Seq<char>) -> SegmentView {
    (s, TextStyle::Plain)
}

/// An empty line.
pub open spec fn blank() -> ActionView {
    ActionView::WriteLine(Seq::<SegmentView>::empty())
}

/// A line holding one unstyled text.
pub open spec fn line(s: Seq<char>) -> ActionView {
    ActionView::WriteLine(seq![plain(s)])
}

/// A text set off by an empty line before and after.
pub open spec fn spaced(s: Seq<char>) -> Seq<ActionView> {
    seq![blank(), line(s), blank()]
}

/// An error report: a cross mark and the text in red, set off by empty lines.
pub open spec fn error_lines(s: Seq<char>) -> Seq<ActionView> {
    seq![blank(), ActionView::WriteLine(seq![plain("❌ "@), (s, TextStyle::Red)]), blank()]
}

/// The current-session report.
pub open spec fn session_info_lines(id: int, name: Seq<char>) -> Seq<ActionView> {
    seq![
        blank(),
        ActionView::WriteLine(
            seq![
                plain("📍 Current session: "@),
                (name, TextStyle::CyanBold),
                plain(" (ID: "@),
                (int_decimal(id), TextStyle::Dim),
                plain(")"@),
            ],
        ),
        blank(),
    ]
}

/// The commands the help lists, with what each does.
pub open spec fn help_entries() -> Seq<(Seq<char>, Seq<char>)> {
    seq![
        ("🧹 /clear"@, "Clear the screen"@),
        ("✨ /new [name]"@, "Create a new session"@),
        ("💾 /save <name>"@, "Save current session with a name"@),
        ("🗑️ /delete <name>"@, "Delete a saved session"@),
        ("📚 /list"@, "Show all saved sessions"@),
        ("🔄 /resume <name>"@, "Switch to a different session"@),
        ("🎭 /role [role]"@, "Set or view current role"@),
        ("🤖 /model [number]"@, "View or set the AI model for this session"@),
    ]
}

/// The help line for one command.
pub open spec fn help_line(e: (Seq<char>, Seq<char>)) -> ActionView {
    ActionView::WriteLine(
        seq![plain("  "@), (e.0, TextStyle::Yellow), plain(" - "@), (e.1, TextStyle::Dim)],
    )
}

/// The command help.
pub open spec fn help_lines() -> Seq<ActionView> {
    seq![blank(), line("💡 Available commands:"@)] + help_entries().map_values(
        |e: (Seq<char>, Seq<char>)| help_line(e),
    ) + seq![blank()]
}

/// A segment holding `text` in `style`.
pub fn seg(text: &str, style: TextStyle) -> (s: Segment)
    ensures
        s@ == (text@, style),
{
    Segment { text: String::from_str(text), style }
}

/// A segment holding `text` in `style`.
pub fn seg_owned(text: String, style: TextStyle) -> (s: Segment)
    ensures
        s@ == (text@, style),
{
    Segment { text, style }
}

impl TermOutput {
    /// No actions yet.
    pub fn new() -> (out: TermOutput)
        ensures
            out@ == Seq::<ActionView>::empty(),
    {
        let out = TermOutput { actions: Vec::new() };
        assert(out@ =~= Seq::<ActionView>::empty());
        out
    }

    /// Appends one action.
    pub fn push(&mut self, a: TermAction)
        ensures
            final(self)@ == old(self)@.push(a@),
    {
        self.actions.push(a);
        assert(self@ =~= old(self)@.push(a@));
    }

    /// Appends a line made of `segments`.
    pub fn write_segments(&mut self, segments: Vec<Segment>)
        ensures
            final(self)@ == old(self)@.push(ActionView::WriteLine(segment_views(segments@))),
    {
        self.push(TermAction::WriteLine(segments));
    }

    /// Appends an empty line.
    pub fn write_blank(&mut self)
        ensures
            final(self)@ == old(self)@.push(blank()),
    {
        let v: Vec<Segment> = Vec::new();
        assert(segment_views(v@) =~= Seq::<SegmentView>::empty());
        self.write_segments(v);
    }

    /// Appends a line holding `text`.
    pub fn write_line(&mut self, text: String)
        ensures
            final(self)@ == old(self)@.push(line(text@)),
    {
        let mut v: Vec<Segment> = Vec::new();
        v.push(seg_owned(text, TextStyle::Plain));
        assert(segment_views(v@) =~= seq![plain(v@[0].text@)]);
        self.write_segments(v);
    }
}

/// Clears the screen.
pub fn clear_screen(out: &mut TermOutput)
    ensures
        final(out)@ == old(out)@.push(ActionView::ClearScreen),
{
    out.push(TermAction::ClearScreen);
}

/// Writes `text` with an empty line before and after it.
pub fn write_spaced_line(out: &mut TermOutput, text: String)
    ensures
        final(out)@ == old(out)@ + spaced(text@),
{
    out.write_blank();
    out.write_line(text);
    out.write_blank();
    assert(final(out)@ =~= old(out)@ + spaced(text@));
}

/// Writes an error report for `text`.
pub fn write_error(out: &mut TermOutput, text: String)
    ensures
        final(out)@ == old(out)@ + error_lines(text@),
{
    out.write_blank();
    let mut v: Vec<Segment> = Vec::new();
    v.push(seg("❌ ", TextStyle::Plain));
    v.push(seg_owned(text, TextStyle::Red));
    let ghost sv = segment_views(v@);
    assert(sv =~= seq![plain("❌ "@), (v@[1].text@, TextStyle::Red)]);
    out.write_segments(v);
    out.write_blank();
    assert(final(out)@ =~= old(out)@ + error_lines(text@));
}

/// Writes the current-session report for session `session_id` named `session_name`.
pub fn write_session_info(out: &mut TermOutput, session_id: i32, session_name: String)
    ensures
        final(out)@ == old(out)@ + session_info_lines(session_id as int, session_name@),
{
    out.write_blank();
    let mut id_text = String::new();
    push_int(&mut id_text, session_id as i64);
    assert(id_text@ =~= int_decimal(session_id as int));
    let mut v: Vec<Segment> = Vec::new();
    v.push(seg("📍 Current session: ", TextStyle::Plain));
    v.push(seg_owned(session_name, TextStyle::CyanBold));
    v.push(seg(" (ID: ", TextStyle::Plain));
    v.push(seg_owned(id_text, TextStyle::Dim));
    v.push(seg(")", TextStyle::Plain));
    assert(segment_views(v@) =~= seq![
        plain("📍 Current session: "@),
        (v@[1].text@, TextStyle::CyanBold),
        plain(" (ID: "@),
        (int_decimal(session_id as int), TextStyle::Dim),
        plain(")"@),
    ]);
    out.write_segments(v);
    out.write_blank();
    assert(final(out)@ =~= old(out)@ + session_info_lines(session_id as int, session_name@));
}

fn write_help_line(out: &mut TermOutput, command: &str, description: &str)
    ensures
        final(out)@ == old(out)@.push(help_line((command@, description@))),
{
    let mut v: Vec<Segment> = Vec::new();
    v.push(seg("  ", TextStyle::Plain));
    v.push(seg(command, TextStyle::Yellow));
    v.push(seg(" - ", TextStyle::Plain));
    v.push(seg(description, TextStyle::Dim));
    assert(segment_views(v@) =~= seq![
        plain("  "@),
        (command@, TextStyle::Yellow),
        plain(" - "@),
        (description@, TextStyle::Dim),
    ]);
    out.write_segments(v);
}

/// Writes the command help.
pub fn write_command_help(out: &mut TermOutput)
    ensures
        final(out)@ == old(out)@ + help_lines(),
{
    out.write_blank();
    out.write_line(String::from_str("💡 Available commands:"));
    write_help_line(out, "🧹 /clear", "Clear the screen");
    write_help_line(out, "✨ /new [name]", "Create a new session");
    write_help_line(out, "💾 /save <name>", "Save current session with a name");
    write_help_line(out, "🗑️ /delete <name>", "Delete a saved session");
    write_help_line(out, "📚 /list", "Show all saved sessions");
    write_help_line(out, "🔄 /resume <name>", "Switch to a different session");
    write_help_line(out, "🎭 /role [role]", "Set or view current role");
    write_help_line(out, "🤖 /model [number]", "View or set the AI model for this session");
    out.write_blank();
    assert(help_entries().map_values(|e: (Seq<char>, Seq<char>)| help_line(e)) =~= seq![
        help_line(help_entries()[0]),
        help_line(help_entries()[1]),
        help_line(help_entries()[2]),
        help_line(help_entries()[3]),
        help_line(help_entries()[4]),
        help_line(help_entries()[5]),
        help_line(help_entries()[6]),
        help_line(help_entries()[7]),
    ]);
    assert(final(out)@ =~= old(out)@ + help_lines());
}

} // verus!
