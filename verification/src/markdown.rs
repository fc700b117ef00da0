//! Markdown rendering: a README is parsed by pulldown-cmark into events, and
//! the events are folded into display blocks (headings, paragraphs, list
//! items, code blocks, links) that the UI paints.

use pulldown_cmark::{
    Alignment, BlockQuoteKind, CodeBlockKind, CowStr, Event, HeadingLevel, LinkType,
    MetadataBlockKind, Options, Parser, Tag, TagEnd,
};
use vstd::prelude::*;
use vstd::string::*;
use vstd::utf8::*;

use crate::linkify::{segments, spans, Segment};
use crate::text::{chars_of, owned, push_char, str_eq, trim, trim_end, trim_end_ws, trim_ws};

verus! {

#[verifier::external_type_specification]
#[verifier::external_body]
pub struct ExCowStr<'a>(CowStr<'a>);

#[verifier::external_type_specification]
pub struct ExHeadingLevel(HeadingLevel);

#[verifier::external_type_specification]
pub struct ExBlockQuoteKind(BlockQuoteKind);

#[verifier::external_type_specification]
pub struct ExMetadataBlockKind(MetadataBlockKind);

#[verifier::external_type_specification]
pub struct ExAlignment(Alignment);

#[verifier::external_type_specification]
pub struct ExLinkType(LinkType);

#[verifier::external_type_specification]
pub struct ExCodeBlockKind<'a>(CodeBlockKind<'a>);

#[verifier::external_type_specification]
pub struct ExTag<'a>(Tag<'a>);

#[verifier::external_type_specification]
pub struct ExTagEnd(TagEnd);

#[verifier::external_type_specification]
pub struct ExEvent<'a>(Event<'a>);

/// One parser event, reduced to what the renderer reads.
#[derive(Debug, Clone, PartialEq, Eq)]
pub enum MdEvent {
    /// Start of a heading of level 1 to 6.
    StartHeading(u8),
    EndHeading,
    EndParagraph,
    StartItem,
    EndItem,
    StartList,
    EndList,
    StartCodeBlock,
    EndCodeBlock,
    /// Start of a link to the given destination.
    StartLink(String),
    EndLink,
    StartBlockQuote,
    EndBlockQuote,
    /// Inline code.
    Code(String),
    Text(String),
    /// A soft or hard line break.
    Break,
    Rule,
    /// Block or inline HTML.
    Html(String),
    /// Any event the renderer ignores.
    Other,
}

/// The level number of a heading (1 for `#` to 6 for `######`).
pub open spec fn level_number(l: HeadingLevel) -> u8 {
    match l {
        HeadingLevel::H1 => 1,
        HeadingLevel::H2 => 2,
        HeadingLevel::H3 => 3,
        HeadingLevel::H4 => 4,
        HeadingLevel::H5 => 5,
        HeadingLevel::H6 => 6,
    }
}

/// The heading levels from `#` to `######`.
pub open spec fn heading_levels() -> Seq<HeadingLevel> {
    seq![HeadingLevel::H1, HeadingLevel::H2, HeadingLevel::H3, HeadingLevel::H4, HeadingLevel::H5, HeadingLevel::H6]
}

/// Law: the level number of a heading is its count of `#` (the `k`-th level
/// from `#` has number `k + 1`), so only a `#` heading is a title: a line
/// under any deeper heading is a subtitle, unless it holds a URL.
pub proof fn lemma_heading_levels(l: HeadingLevel, line: Seq<char>)
    ensures
        forall|k: int| 0 <= k < 6 ==> level_number(#[trigger] heading_levels()[k]) == k + 1,
        1 <= level_number(l) <= 6,
        !has_url(line) ==> line_block(Some(level_number(l)), line) == if l == HeadingLevel::H1 {
            BlockView::Title(line)
        } else {
            BlockView::Subtitle(line)
        },
{
    assert forall|k: int| 0 <= k < 6 implies level_number(#[trigger] heading_levels()[k]) == k + 1 by {
        if k == 0 {
        } else if k == 1 {
        } else if k == 2 {
        } else if k == 3 {
        } else if k == 4 {
        } else {
        }
    }
}

fn heading_number(l: HeadingLevel) -> (r: u8)
    ensures
        r == level_number(l),
{
    match l {
        HeadingLevel::H1 => 1,
        HeadingLevel::H2 => 2,
        HeadingLevel::H3 => 3,
        HeadingLevel::H4 => 4,
        HeadingLevel::H5 => 5,
        HeadingLevel::H6 => 6,
    }
}

/// The text of a parser string.
///
/// Trusted: calls `CowStr::into_string` from pulldown-cmark, which returns the
/// string's characters as an owned `String`. `CowStr` is opaque here, so the
/// contract states nothing of the characters.
#[verifier::external_body]
fn cow_to_string(c: CowStr<'_>) -> String {
    c.into_string()
}

/// `r` is the reduced form of `e`: the same kind of event, with the heading
/// level kept; strings are carried over by [`cow_to_string`].
pub open spec fn reduces_to(e: Event, r: MdEvent) -> bool {
    match e {
        Event::Start(Tag::Heading { level, .. }) => r == MdEvent::StartHeading(level_number(level)),
        Event::Start(Tag::Item) => r == MdEvent::StartItem,
        Event::Start(Tag::List(_)) => r == MdEvent::StartList,
        Event::Start(Tag::CodeBlock(_)) => r == MdEvent::StartCodeBlock,
        Event::Start(Tag::Link { .. }) => r is StartLink,
        Event::Start(Tag::BlockQuote(_)) => r == MdEvent::StartBlockQuote,
        Event::Start(_) => r == MdEvent::Other,
        Event::End(TagEnd::Heading(_)) => r == MdEvent::EndHeading,
        Event::End(TagEnd::Paragraph) => r == MdEvent::EndParagraph,
        Event::End(TagEnd::Item) => r == MdEvent::EndItem,
        Event::End(TagEnd::List(_)) => r == MdEvent::EndList,
        Event::End(TagEnd::CodeBlock) => r == MdEvent::EndCodeBlock,
        Event::End(TagEnd::Link) => r == MdEvent::EndLink,
        Event::End(TagEnd::BlockQuote(_)) => r == MdEvent::EndBlockQuote,
        Event::End(_) => r == MdEvent::Other,
        Event::Text(_) => r is Text,
        Event::Code(_) => r is Code,
        Event::Html(_) => r is Html,
        Event::InlineHtml(_) => r is Html,
        Event::SoftBreak => r == MdEvent::Break,
        Event::HardBreak => r == MdEvent::Break,
        Event::Rule => r == MdEvent::Rule,
        _ => r == MdEvent::Other,
    }
}

/// Reduce one parser event to the renderer's event type.
pub fn md_event(e: Event<'_>) -> (r: MdEvent)
    ensures
        reduces_to(e, r),
{
    match e {
        Event::Start(tag) => match tag {
            Tag::Heading { level, .. } => MdEvent::StartHeading(heading_number(level)),
            Tag::Item => MdEvent::StartItem,
            Tag::List(_) => MdEvent::StartList,
            Tag::CodeBlock(_) => MdEvent::StartCodeBlock,
            Tag::Link { dest_url, .. } => MdEvent::StartLink(cow_to_string(dest_url)),
            Tag::BlockQuote(_) => MdEvent::StartBlockQuote,
            _ => MdEvent::Other,
        },
        Event::End(tag) => match tag {
            TagEnd::Heading(_) => MdEvent::EndHeading,
            TagEnd::Paragraph => MdEvent::EndParagraph,
            TagEnd::Item => MdEvent::EndItem,
            TagEnd::List(_) => MdEvent::EndList,
            TagEnd::CodeBlock => MdEvent::EndCodeBlock,
            TagEnd::Link => MdEvent::EndLink,
            TagEnd::BlockQuote(_) => MdEvent::EndBlockQuote,
            _ => MdEvent::Other,
        },
        Event::Text(t) => MdEvent::Text(cow_to_string(t)),
        Event::Code(c) => MdEvent::Code(cow_to_string(c)),
        Event::Html(h) => MdEvent::Html(cow_to_string(h)),
        Event::InlineHtml(h) => MdEvent::Html(cow_to_string(h)),
        Event::SoftBreak => MdEvent::Break,
        Event::HardBreak => MdEvent::Break,
        Event::Rule => MdEvent::Rule,
        _ => MdEvent::Other,
    }
}

/// The parser options the renderer uses: tables and strikethrough
/// (`Options::ENABLE_TABLES | Options::ENABLE_STRIKETHROUGH`).
pub const README_OPTIONS: u32 = 0b1010;

/// The events pulldown-cmark produces for `text` under the option bits
/// `options`, each reduced by [`md_event`].
pub uninterp spec fn markdown_events(text: Seq<char>, options: u32) -> Seq<MdEvent>;

/// Parse `text` into reduced events.
///
/// Trusted: runs `Parser::new_ext` from pulldown-cmark with the option bits
/// `options` and reduces each event with the verified [`md_event`]. The
/// parse is a function of the text and the options alone; its result is
/// named [`markdown_events`] and not stated further.
#[verifier::external_body]
fn parse_markdown(text: &str, options: u32) -> (r: Vec<MdEvent>)
    ensures
        r@ == markdown_events(text@, options),
{
    Parser::new_ext(text, Options::from_bits_truncate(options)).map(md_event).collect()
}

/// Vertical space after a block, in the theme's spacing steps.
#[derive(Debug, Clone, Copy, PartialEq, Eq, Structural)]
pub enum Gap {
    /// The extra-small step.
    Xs,
    /// The small step.
    Sm,
}

/// One display block of rendered markdown.
#[derive(Debug, Clone, PartialEq, Eq)]
pub enum Block {
    /// Dimmed placeholder text.
    Dim(String),
    /// A level-1 heading.
    Title(String),
    /// A heading of level 2 or deeper.
    Subtitle(String),
    /// Body text; bare URLs in it are linked when painted.
    Body(String),
    /// A code block, monospaced.
    Code(String),
    /// A link shown by its URL.
    Link(String),
    /// A link with a label of its own: `(label, url)`.
    NamedLink(String, String),
    /// Vertical space.
    Space(Gap),
    /// A horizontal rule.
    Separator,
}

/// A [`Block`] with its strings taken as character sequences.
pub enum BlockView {
    Dim(Seq<char>),
    Title(Seq<char>),
    Subtitle(Seq<char>),
    Body(Seq<char>),
    Code(Seq<char>),
    Link(Seq<char>),
    NamedLink(Seq<char>, Seq<char>),
    Space(Gap),
    Separator,
}

impl View for Block {
    type V = BlockView;

    open spec fn view(&self) -> BlockView {
        match self {
            Block::Dim(s) => BlockView::Dim(s@),
            Block::Title(s) => BlockView::Title(s@),
            Block::Subtitle(s) => BlockView::Subtitle(s@),
            Block::Body(s) => BlockView::Body(s@),
            Block::Code(s) => BlockView::Code(s@),
            Block::Link(s) => BlockView::Link(s@),
            Block::NamedLink(l, u) => BlockView::NamedLink(l@, u@),
            Block::Space(g) => BlockView::Space(*g),
            Block::Separator => BlockView::Separator,
        }
    }
}

/// The views of a list of blocks.
pub open spec fn block_views(v: Seq<Block>) -> Seq<BlockView> {
    v.map_values(|b: Block| b@)
}

/// What the renderer holds between events: the pending paragraph text, the
/// list nesting depth, the code block being collected, the pending heading
/// level, and the link being collected with its text.
#[verifier::ext_equal]
pub struct RenderState {
    pub inline: Seq<char>,
    pub depth: nat,
    pub in_code: bool,
    pub code: Seq<char>,
    pub heading: Option<u8>,
    pub link: Option<Seq<char>>,
    pub link_text: Seq<char>,
}

/// The state before the first event.
pub open spec fn initial_state() -> RenderState {
    RenderState {
        inline: seq![],
        depth: 0,
        in_code: false,
        code: seq![],
        heading: None,
        link: None,
        link_text: seq![],
    }
}

/// `n` two-space indents.
pub open spec fn indent(n: nat) -> Seq<char>
    decreases n,
{
    if n == 0 {
        seq![]
    } else {
        indent((n - 1) as nat) + seq![' ', ' ']
    }
}

/// The bullet before a line inside a list nested `depth` deep.
pub open spec fn item_prefix(depth: nat) -> Seq<char> {
    if depth > 0 {
        indent((depth - 1) as nat) + seq!['\u{2022}', ' ']
    } else {
        seq![]
    }
}

/// `s` holds a bare URL, as [`crate::linkify::segments`] finds them.
pub open spec fn has_url(s: Seq<char>) -> bool {
    exists|k: int|
        0 <= k < spans(encode_utf8(s)).len() && (#[trigger] spans(encode_utf8(s))[k]).0
}

/// The block for a finished line: headings keep their style unless the line
/// holds a URL, which only body text links.
pub open spec fn line_block(heading: Option<u8>, line: Seq<char>) -> BlockView {
    match heading {
        Some(l) => if has_url(line) {
            BlockView::Body(line)
        } else if l == 1 {
            BlockView::Title(line)
        } else {
            BlockView::Subtitle(line)
        },
        None => BlockView::Body(line),
    }
}

/// Emit the pending text as a line. Text that is blank after trimming is
/// dropped and leaves the pending heading level in place.
pub open spec fn flush(st: RenderState) -> (RenderState, Seq<BlockView>) {
    let text = trim_ws(st.inline);
    if text.len() == 0 {
        (RenderState { inline: seq![], ..st }, seq![])
    } else {
        let line = item_prefix(st.depth) + text;
        (
            RenderState { inline: seq![], heading: None, ..st },
            seq![line_block(st.heading, line), BlockView::Space(Gap::Xs)],
        )
    }
}

/// `s` without its `<` and `>` characters.
pub open spec fn without_angles(s: Seq<char>) -> Seq<char>
    decreases s.len(),
{
    if s.len() == 0 {
        s
    } else if s.last() == '<' || s.last() == '>' {
        without_angles(s.drop_last())
    } else {
        without_angles(s.drop_last()).push(s.last())
    }
}

/// Text goes to the code block when one is open (as `code_text`), else to
/// the open link's label, else to the pending line.
pub open spec fn add_text(st: RenderState, code_text: Seq<char>, text: Seq<char>) -> RenderState {
    if st.in_code {
        RenderState { code: st.code + code_text, ..st }
    } else if st.link is Some {
        RenderState { link_text: st.link_text + text, ..st }
    } else {
        RenderState { inline: st.inline + text, ..st }
    }
}

/// The heading level kept while a heading is open: 1, 2, or 3 for deeper ones.
pub open spec fn capped_level(l: u8) -> u8 {
    if l == 1 {
        1
    } else if l == 2 {
        2
    } else {
        3
    }
}

/// One event: the next state and the blocks it emits.
pub open spec fn step(st: RenderState, e: MdEvent) -> (RenderState, Seq<BlockView>) {
    match e {
        MdEvent::StartHeading(l) => {
            let (s, b) = flush(st);
            (RenderState { heading: Some(capped_level(l)), ..s }, b)
        },
        MdEvent::EndHeading => flush(st),
        MdEvent::EndParagraph => {
            let (s, b) = flush(st);
            (s, b.push(BlockView::Space(Gap::Sm)))
        },
        MdEvent::StartItem => flush(st),
        MdEvent::EndItem => flush(st),
        MdEvent::StartList => (RenderState { depth: st.depth + 1, ..st }, seq![]),
        MdEvent::EndList => (
            RenderState {
                depth: if st.depth > 0 {
                    (st.depth - 1) as nat
                } else {
                    0
                },
                ..st
            },
            seq![BlockView::Space(Gap::Xs)],
        ),
        MdEvent::StartCodeBlock => {
            let (s, b) = flush(st);
            (RenderState { in_code: true, code: seq![], ..s }, b)
        },
        MdEvent::EndCodeBlock => {
            let c = trim_end_ws(st.code);
            (
                RenderState { in_code: false, code: seq![], ..st },
                if c.len() > 0 {
                    seq![BlockView::Code(c), BlockView::Space(Gap::Sm)]
                } else {
                    seq![]
                },
            )
        },
        MdEvent::StartLink(url) => {
            let (s, b) = flush(st);
            (RenderState { link: Some(url@), link_text: seq![], ..s }, b)
        },
        MdEvent::EndLink => match st.link {
            Some(url) => {
                let t = trim_ws(st.link_text);
                let label = if t.len() == 0 {
                    url
                } else {
                    t
                };
                (
                    RenderState { link: None, link_text: seq![], ..st },
                    seq![
                        if label == url {
                            BlockView::Link(url)
                        } else {
                            BlockView::NamedLink(label, url)
                        },
                        BlockView::Space(Gap::Xs),
                    ],
                )
            },
            None => (RenderState { link_text: seq![], ..st }, seq![]),
        },
        MdEvent::StartBlockQuote => flush(st),
        MdEvent::EndBlockQuote => flush(st),
        MdEvent::Code(c) => (add_text(st, c@, seq!['`'] + c@ + seq!['`']), seq![]),
        MdEvent::Text(t) => (add_text(st, t@, t@), seq![]),
        MdEvent::Break => (add_text(st, seq!['\n'], seq![' ']), seq![]),
        MdEvent::Rule => {
            let (s, b) = flush(st);
            (s, b + seq![BlockView::Separator, BlockView::Space(Gap::Sm)])
        },
        MdEvent::Html(h) => {
            let t = trim_ws(without_angles(h@));
            if t.len() > 0 && !st.in_code {
                (add_text(st, t, t), seq![])
            } else {
                (st, seq![])
            }
        },
        MdEvent::Other => (st, seq![]),
    }
}

/// The state and blocks after a run of events.
pub open spec fn run(events: Seq<MdEvent>) -> (RenderState, Seq<BlockView>)
    decreases events.len(),
{
    if events.len() == 0 {
        (initial_state(), seq![])
    } else {
        let (s, out) = run(events.drop_last());
        let (s2, more) = step(s, events.last());
        (s2, out + more)
    }
}

/// The blocks for a whole event stream: every event, then the pending text.
pub open spec fn rendered(events: Seq<MdEvent>) -> Seq<BlockView> {
    out_then_flush(run(events))
}

/// The blocks emitted so far followed by what the final flush emits.
pub open spec fn out_then_flush(r: (RenderState, Seq<BlockView>)) -> Seq<BlockView> {
    r.1 + flush(r.0).1
}

/// The renderer's running state (see [`RenderState`]) and the blocks
/// emitted so far.
struct Renderer {
    inline: String,
    depth: usize,
    in_code: bool,
    code: String,
    heading: Option<u8>,
    link_url: Option<String>,
    link_text: String,
    out: Vec<Block>,
}

/// An optional string taken as a character sequence.
pub open spec fn opt_view(o: Option<String>) -> Option<Seq<char>> {
    match o {
        Some(s) => Some(s@),
        None => None,
    }
}

impl Renderer {
    spec fn state(&self) -> RenderState {
        RenderState {
            inline: self.inline@,
            depth: self.depth as nat,
            in_code: self.in_code,
            code: self.code@,
            heading: self.heading,
            link: opt_view(self.link_url),
            link_text: self.link_text@,
        }
    }

    spec fn blocks(&self) -> Seq<BlockView> {
        block_views(self.out@)
    }

    fn new() -> (r: Self)
        ensures
            r.state() == initial_state(),
            r.blocks() == Seq::<BlockView>::empty(),
    {
        let r = Renderer {
            inline: String::new(),
            depth: 0,
            in_code: false,
            code: String::new(),
            heading: None,
            link_url: None,
            link_text: String::new(),
            out: Vec::new(),
        };
        assert(r.blocks() =~= Seq::<BlockView>::empty());
        r
    }

    fn emit(&mut self, b: Block)
        ensures
            final(self).state() == old(self).state(),
            final(self).blocks() == old(self).blocks().push(b@),
    {
        self.out.push(b);
        assert(block_views(self.out@) =~= block_views(old(self).out@).push(b@));
    }

    fn flush(&mut self)
        ensures
            final(self).state() == flush(old(self).state()).0,
            final(self).blocks() == old(self).blocks() + flush(old(self).state()).1,
    {
        let text = trim(self.inline.as_str());
        if text.is_empty() {
            self.inline = String::new();
            assert(self.blocks() =~= old(self).blocks() + Seq::<BlockView>::empty());
            return;
        }
        let mut line = prefix_for(self.depth);
        line.append(text);
        let block = match self.heading {
            Some(l) => if has_url_line(line.as_str()) {
                Block::Body(line)
            } else if l == 1 {
                Block::Title(line)
            } else {
                Block::Subtitle(line)
            },
            None => Block::Body(line),
        };
        self.inline = String::new();
        self.heading = None;
        self.emit(block);
        self.emit(Block::Space(Gap::Xs));
        proof {
            let st = old(self).state();
            assert(self.blocks() =~= old(self).blocks() + flush(st).1);
        }
    }

    /// Route text as [`add_text`] does.
    fn add_text(&mut self, code_text: &str, text: &str)
        ensures
            final(self).state() == add_text(old(self).state(), code_text@, text@),
            final(self).blocks() == old(self).blocks(),
    {
        if self.in_code {
            self.code.append(code_text);
        } else if self.link_url.is_some() {
            self.link_text.append(text);
        } else {
            self.inline.append(text);
        }
    }

    fn step(&mut self, e: &MdEvent)
        requires
            old(self).depth < usize::MAX,
        ensures
            final(self).state() == step(old(self).state(), *e).0,
            final(self).blocks() == old(self).blocks() + step(old(self).state(), *e).1,
            final(self).depth <= old(self).depth + 1,
    {
        let ghost st = self.state();
        let ghost b0 = self.blocks();
        match e {
            MdEvent::StartHeading(l) => {
                self.flush();
                self.heading = Some(
                    if *l == 1 {
                        1
                    } else if *l == 2 {
                        2
                    } else {
                        3
                    },
                );
            },
            MdEvent::EndHeading => self.flush(),
            MdEvent::EndParagraph => {
                self.flush();
                self.emit(Block::Space(Gap::Sm));
                assert(self.blocks() =~= b0 + step(st, *e).1);
            },
            MdEvent::StartItem => self.flush(),
            MdEvent::EndItem => self.flush(),
            MdEvent::StartList => {
                self.depth = self.depth + 1;
                assert(self.blocks() =~= b0 + step(st, *e).1);
            },
            MdEvent::EndList => {
                self.depth = if self.depth > 0 {
                    self.depth - 1
                } else {
                    0
                };
                self.emit(Block::Space(Gap::Xs));
                assert(self.blocks() =~= b0 + step(st, *e).1);
            },
            MdEvent::StartCodeBlock => {
                self.flush();
                self.in_code = true;
                self.code = String::new();
            },
            MdEvent::EndCodeBlock => {
                self.in_code = false;
                let c = owned(trim_end(self.code.as_str()));
                self.code = String::new();
                if !c.as_str().is_empty() {
                    self.emit(Block::Code(c));
                    self.emit(Block::Space(Gap::Sm));
                }
                assert(self.blocks() =~= b0 + step(st, *e).1);
            },
            MdEvent::StartLink(url) => {
                self.flush();
                self.link_url = Some(url.clone());
                self.link_text = String::new();
            },
            MdEvent::EndLink => {
                let taken = self.link_url.take();
                match taken {
                    Some(url) => {
                        let t = trim(self.link_text.as_str());
                        let label = if t.is_empty() {
                            url.clone()
                        } else {
                            owned(t)
                        };
                        self.link_text = String::new();
                        if str_eq(label.as_str(), url.as_str()) {
                            self.emit(Block::Link(url));
                        } else {
                            self.emit(Block::NamedLink(label, url));
                        }
                        self.emit(Block::Space(Gap::Xs));
                    },
                    None => {
                        self.link_text = String::new();
                    },
                }
                assert(self.blocks() =~= b0 + step(st, *e).1);
            },
            MdEvent::StartBlockQuote => self.flush(),
            MdEvent::EndBlockQuote => self.flush(),
            MdEvent::Code(c) => {
                let mut quoted = String::new();
                push_char(&mut quoted, '`');
                quoted.append(c.as_str());
                push_char(&mut quoted, '`');
                self.add_text(c.as_str(), quoted.as_str());
                assert(quoted@ =~= seq!['`'] + c@ + seq!['`']);
                assert(self.blocks() =~= b0 + step(st, *e).1);
            },
            MdEvent::Text(t) => {
                self.add_text(t.as_str(), t.as_str());
                assert(self.blocks() =~= b0 + step(st, *e).1);
            },
            MdEvent::Break => {
                proof {
                    reveal_strlit("\n");
                    reveal_strlit(" ");
                }
                self.add_text("\n", " ");
                assert(self.blocks() =~= b0 + step(st, *e).1);
            },
            MdEvent::Rule => {
                self.flush();
                self.emit(Block::Separator);
                self.emit(Block::Space(Gap::Sm));
                assert(self.blocks() =~= b0 + step(st, *e).1);
            },
            MdEvent::Html(h) => {
                let stripped = strip_angles(h.as_str());
                let t = trim(stripped.as_str());
                if !t.is_empty() && !self.in_code {
                    self.add_text(t, t);
                }
                assert(self.blocks() =~= b0 + step(st, *e).1);
            },
            MdEvent::Other => {
                assert(self.blocks() =~= b0 + step(st, *e).1);
            },
        }
    }
}

/// The bullet prefix for a list line `depth` deep.
fn prefix_for(depth: usize) -> (r: String)
    ensures
        r@ == item_prefix(depth as nat),
{
    let mut s = String::new();
    if depth > 0 {
        proof {
            reveal_strlit("  ");
            reveal_strlit("\u{2022} ");
        }
        let mut i: usize = 0;
        while i < depth - 1
            invariant
                i <= depth - 1,
                s@ == indent(i as nat),
            decreases depth - 1 - i,
        {
            proof {
                reveal_strlit("  ");
            }
            s.append("  ");
            i += 1;
        }
        s.append("\u{2022} ");
    }
    s
}

/// Whether `line` holds a bare URL.
fn has_url_line(line: &str) -> (r: bool)
    ensures
        r == has_url(line@),
{
    let segs = segments(line);
    let mut k: usize = 0;
    while k < segs.len()
        invariant
            k <= segs@.len(),
            segs@.len() == spans(encode_utf8(line@)).len(),
            forall|j: int|
                0 <= j < segs@.len() ==> (#[trigger] segs@[j]).is_url_seg() == spans(
                    encode_utf8(line@),
                )[j].0,
            forall|j: int| 0 <= j < k ==> !(#[trigger] spans(encode_utf8(line@))[j]).0,
        decreases segs@.len() - k,
    {
        assert(segs@[k as int].is_url_seg() == spans(encode_utf8(line@))[k as int].0);
        match &segs[k] {
            Segment::Url(_) => {
                return true;
            },
            Segment::Text(_) => {},
        }
        k += 1;
    }
    false
}

/// `s` without its `<` and `>` characters.
fn strip_angles(s: &str) -> (r: String)
    ensures
        r@ == without_angles(s@),
{
    let v = chars_of(s);
    let mut r = String::new();
    let mut i: usize = 0;
    while i < v.len()
        invariant
            v@ == s@,
            i <= v@.len(),
            r@ == without_angles(v@.take(i as int)),
        decreases v@.len() - i,
    {
        assert(v@.take(i + 1).drop_last() =~= v@.take(i as int));
        let c = v[i];
        if c != '<' && c != '>' {
            push_char(&mut r, c);
        }
        i += 1;
    }
    assert(v@.take(v@.len() as int) =~= v@);
    r
}

/// Fold a stream of reduced events into display blocks.
pub fn render_events(events: &[MdEvent]) -> (r: Vec<Block>)
    ensures
        block_views(r@) == rendered(events@),
{
    let mut r = Renderer::new();
    let mut k: usize = 0;
    while k < events.len()
        invariant
            k <= events@.len(),
            r.depth <= k,
            r.state() == run(events@.take(k as int)).0,
            r.blocks() == run(events@.take(k as int)).1,
        decreases events@.len() - k,
    {
        assert(events@.take(k + 1).drop_last() =~= events@.take(k as int));
        r.step(&events[k]);
        k += 1;
    }
    r.flush();
    assert(events@.take(events@.len() as int) =~= events@);
    r.out
}

/// The blocks for a README: a dimmed placeholder when there is none (empty
/// text or the text `(no README)`), else the rendered markdown.
pub open spec fn readme_blocks(markdown: Seq<char>) -> Seq<BlockView> {
    if markdown.len() == 0 || markdown == "(no README)"@ {
        seq![BlockView::Dim("(no README)"@)]
    } else {
        rendered(markdown_events(markdown, README_OPTIONS))
    }
}

/// Render README markdown into display blocks (headings, paragraphs, lists,
/// code, links), parsed with tables and strikethrough enabled.
pub fn render(markdown: &str) -> (r: Vec<Block>)
    ensures
        block_views(r@) == readme_blocks(markdown@),
{
    if markdown.is_empty() || str_eq(markdown, "(no README)") {
        let mut v: Vec<Block> = Vec::new();
        v.push(Block::Dim(owned("(no README)")));
        assert(block_views(v@) =~= seq![BlockView::Dim("(no README)"@)]);
        return v;
    }
    let events = parse_markdown(markdown, README_OPTIONS);
    render_events(events.as_slice())
}

} // verus!
