use vstd::prelude::*;
use vstd::string::*;

verus! {

/// What a rendered line is to the two texts.
#[derive(Debug, Clone, Copy, PartialEq, Eq, Structural)]
pub enum ChangeTag {
    Equal,
    Delete,
    Insert,
}

/// One line of a line diff, with inline emphasis.
#[derive(Debug, Clone)]
pub struct InlineChange {
    pub tag: ChangeTag,
    /// The line's 0-based index in the old text, where it stands there.
    pub old_index: Option<usize>,
    /// The line's 0-based index in the new text, where it stands there.
    pub new_index: Option<usize>,
    /// The pieces of the line; `true` marks one that changed within it.
    pub segments: Vec<(bool, String)>,
    /// The line ends its text without a newline.
    pub missing_newline: bool,
}

pub ghost struct ChangeView {
    pub tag: ChangeTag,
    pub old_index: Option<usize>,
    pub new_index: Option<usize>,
    pub segments: Seq<(bool, Seq<char>)>,
    pub missing_newline: bool,
}

impl View for InlineChange {
    type V = ChangeView;

    open spec fn view(&self) -> ChangeView {
        ChangeView {
            tag: self.tag,
            old_index: self.old_index,
            new_index: self.new_index,
            segments: self.segments.deep_view(),
            missing_newline: self.missing_newline,
        }
    }
}

pub open spec fn changes_view(g: Seq<InlineChange>) -> Seq<ChangeView> {
    g.map_values(|c: InlineChange| c@)
}

pub open spec fn groups_view(gs: Seq<Vec<InlineChange>>) -> Seq<Seq<ChangeView>> {
    gs.map_values(|g: Vec<InlineChange>| changes_view(g@))
}

/// The hunks that `similar` makes of two texts compared line by line, with
/// `context` equal lines around each change, each line with its inline
/// emphasis computed without a deadline.
pub uninterp spec fn line_diff(old: Seq<char>, new: Seq<char>, context: nat) -> Seq<Seq<ChangeView>>;

/// Relies on `TextDiff::from_lines`, `TextDiff::grouped_ops` and
/// `TextDiff::iter_inline_changes_deadline` without a deadline, and on the
/// accessors of `InlineChange`. Equal texts diff to one `Equal` operation
/// (or none), which `grouped_ops` leaves out: no hunk at all.
#[verifier::external_body]
fn grouped_inline_changes(old: &str, new: &str, context: usize) -> (r: Vec<Vec<InlineChange>>)
    ensures
        groups_view(r@) == line_diff(old@, new@, context as nat),
        old@ == new@ ==> r@.len() == 0,
{
    let diff = similar::TextDiff::from_lines(old, new);
    let tag = |t| match t {
        similar::ChangeTag::Equal => ChangeTag::Equal,
        similar::ChangeTag::Delete => ChangeTag::Delete,
        similar::ChangeTag::Insert => ChangeTag::Insert,
    };
    let changes = |op| diff.iter_inline_changes_deadline(op, None).map(|c| InlineChange {
        tag: tag(c.tag()), old_index: c.old_index(), new_index: c.new_index(),
        segments: c.iter_strings_lossy().map(|(e, s)| (e, s.into_owned())).collect(),
        missing_newline: c.missing_newline(),
    });
    diff.grouped_ops(context).iter().map(|g| g.iter().flat_map(changes).collect()).collect()
}

/// The equal lines shown around each change.
pub const CONTEXT_LINES: usize = 3;

/// The hunks of a line diff of two texts, each line with inline emphasis.
pub fn diff_changes(text1: &str, text2: &str) -> (r: Vec<Vec<InlineChange>>)
    ensures
        groups_view(r@) == line_diff(text1@, text2@, CONTEXT_LINES as nat),
        text1@ == text2@ ==> r@.len() == 0,
{
    grouped_inline_changes(text1, text2, CONTEXT_LINES)
}

// ---------------------------------------------------------------------------
// Rendering
// ---------------------------------------------------------------------------

pub open spec fn digit_char(d: nat) -> char {
    if d == 0 { '0' } else if d == 1 { '1' } else if d == 2 { '2' } else if d == 3 { '3' }
    else if d == 4 { '4' } else if d == 5 { '5' } else if d == 6 { '6' } else if d == 7 { '7' }
    else if d == 8 { '8' } else { '9' }
}

/// The decimal digits of `n`.
pub open spec fn decimal(n: nat) -> Seq<char>
    decreases n,
{
    if n < 10 {
        seq![digit_char(n)]
    } else {
        decimal(n / 10).push(digit_char(n % 10))
    }
}

/// Relies on the `Display` of `u128`, which writes the decimal digits.
#[verifier::external_body]
fn decimal_text(n: u128) -> (r: String)
    ensures
        r@ == decimal(n as nat),
{
    n.to_string()
}

/// The width of a line number column.
pub const NUMBER_WIDTH: usize = 4;

/// A 1-based line number from a 0-based index, left-aligned in its column;
/// blank where the line does not stand on that side.
pub open spec fn line_number(i: Option<usize>) -> Seq<char> {
    match i {
        None => Seq::new(NUMBER_WIDTH as nat, |j: int| ' '),
        Some(n) => {
            let d = decimal(n as nat + 1);
            if d.len() >= NUMBER_WIDTH {
                d
            } else {
                d + Seq::new((NUMBER_WIDTH - d.len()) as nat, |j: int| ' ')
            }
        },
    }
}

fn line_number_text(i: Option<usize>) -> (r: String)
    ensures
        r@ == line_number(i),
{
    let mut out = match i {
        None => String::new(),
        Some(n) => decimal_text(n as u128 + 1),
    };
    let ghost start = out@;
    let mut k: usize = out.unicode_len();
    while k < NUMBER_WIDTH
        invariant
            out@.len() == k,
            start.len() <= k,
            start.len() >= NUMBER_WIDTH ==> k == start.len(),
            start.len() < NUMBER_WIDTH ==> k <= NUMBER_WIDTH,
            i is None ==> start.len() == 0,
            i is Some ==> start == decimal(i->0 as nat + 1),
            out@ == start + Seq::new((k - start.len()) as nat, |j: int| ' '),
        decreases NUMBER_WIDTH - k,
    {
        out.append(" ");
        proof {
            reveal_strlit(" ");
            assert(out@ =~= start + Seq::new((k + 1 - start.len()) as nat, |j: int| ' '));
        }
        k = k + 1;
    }
    proof {
        if start.len() >= NUMBER_WIDTH {
            assert(out@ =~= start);
        } else {
            assert(out@ =~= start + Seq::new((NUMBER_WIDTH - start.len()) as nat, |j: int| ' '));
        }
    }
    out
}

/// Text put before and after a piece, such as terminal colour codes.
#[derive(Debug, Clone)]
pub struct Paint {
    pub open: String,
    pub close: String,
}

pub open spec fn painted(p: &Paint, s: Seq<char>) -> Seq<char> {
    p.open@ + s + p.close@
}

impl Paint {
    /// Paint that adds nothing.
    pub fn none() -> (r: Paint)
        ensures
            r.open@.len() == 0,
            r.close@.len() == 0,
    {
        Paint { open: String::new(), close: String::new() }
    }

    fn paint(&self, out: &mut String, s: &str)
        ensures
            final(out)@ == old(out)@ + painted(self, s@),
    {
        out.append(self.open.as_str());
        out.append(s);
        out.append(self.close.as_str());
        assert(final(out)@ =~= old(out)@ + painted(self, s@));
    }
}

/// How the lines of one tag are painted.
#[derive(Debug, Clone)]
pub struct TagStyle {
    pub sign: Paint,
    pub text: Paint,
    /// For the pieces that changed within a line.
    pub emphasis: Paint,
}

/// How a rendered diff is painted.
#[derive(Debug, Clone)]
pub struct DiffStyle {
    pub line_number: Paint,
    pub equal: TagStyle,
    pub delete: TagStyle,
    pub insert: TagStyle,
}

impl DiffStyle {
    /// The style of a plain text rendering.
    pub fn plain() -> (r: DiffStyle)
        ensures
            r.is_plain(),
    {
        DiffStyle {
            line_number: Paint::none(),
            equal: TagStyle { sign: Paint::none(), text: Paint::none(), emphasis: Paint::none() },
            delete: TagStyle { sign: Paint::none(), text: Paint::none(), emphasis: Paint::none() },
            insert: TagStyle { sign: Paint::none(), text: Paint::none(), emphasis: Paint::none() },
        }
    }

    pub open spec fn is_plain(&self) -> bool {
        &&& self.line_number.open@.len() == 0 && self.line_number.close@.len() == 0
        &&& forall|t: ChangeTag| {
            let ts = #[trigger] self.tag_style(t);
            &&& ts.sign.open@.len() == 0 && ts.sign.close@.len() == 0
            &&& ts.text.open@.len() == 0 && ts.text.close@.len() == 0
            &&& ts.emphasis.open@.len() == 0 && ts.emphasis.close@.len() == 0
        }
    }

    pub open spec fn tag_style(&self, t: ChangeTag) -> TagStyle {
        match t {
            ChangeTag::Equal => self.equal,
            ChangeTag::Delete => self.delete,
            ChangeTag::Insert => self.insert,
        }
    }

    fn style_of(&self, t: ChangeTag) -> (r: &TagStyle)
        ensures
            *r == self.tag_style(t),
    {
        match t {
            ChangeTag::Equal => &self.equal,
            ChangeTag::Delete => &self.delete,
            ChangeTag::Insert => &self.insert,
        }
    }
}

/// The sign column: `-` for a deleted line, `+` for an inserted one, a
/// space for context.
pub open spec fn sign(t: ChangeTag) -> Seq<char> {
    match t {
        ChangeTag::Equal => " "@,
        ChangeTag::Delete => "-"@,
        ChangeTag::Insert => "+"@,
    }
}

/// The pieces of a line, each painted as emphasised or not.
pub open spec fn rendered_segments(ts: TagStyle, segs: Seq<(bool, Seq<char>)>) -> Seq<char>
    decreases segs.len(),
{
    if segs.len() == 0 {
        Seq::empty()
    } else {
        let (e, s) = segs.last();
        rendered_segments(ts, segs.drop_last()) + painted(if e { &ts.emphasis } else { &ts.text }, s)
    }
}

/// One rendered line: both line numbers, the sign, the pieces, and a
/// newline where the text ends without one.
pub open spec fn rendered_change(st: DiffStyle, c: ChangeView) -> Seq<char> {
    let ts = st.tag_style(c.tag);
    painted(&st.line_number, line_number(c.old_index)) + painted(&st.line_number, line_number(c.new_index))
        + " |"@ + painted(&ts.sign, sign(c.tag)) + rendered_segments(ts, c.segments)
        + if c.missing_newline { "\n"@ } else { Seq::empty() }
}

pub open spec fn rendered_group(st: DiffStyle, g: Seq<ChangeView>) -> Seq<char>
    decreases g.len(),
{
    if g.len() == 0 {
        Seq::empty()
    } else {
        rendered_group(st, g.drop_last()) + rendered_change(st, g.last())
    }
}

/// The line between two hunks: 80 dashes.
pub open spec fn hunk_divider() -> Seq<char> {
    Seq::new(80, |i: int| '-').push('\n')
}

/// The hunks one after another, a divider between each two.
pub open spec fn rendered_hunks(st: DiffStyle, gs: Seq<Seq<ChangeView>>) -> Seq<char>
    decreases gs.len(),
{
    if gs.len() == 0 {
        Seq::empty()
    } else {
        rendered_hunks(st, gs.drop_last()) + (if gs.len() > 1 { hunk_divider() } else { Seq::empty() })
            + rendered_group(st, gs.last())
    }
}

fn render_change(st: &DiffStyle, c: &InlineChange, out: &mut String)
    ensures
        final(out)@ == old(out)@ + rendered_change(*st, c@),
{
    let ts = st.style_of(c.tag);
    let old_number = line_number_text(c.old_index);
    let new_number = line_number_text(c.new_index);
    st.line_number.paint(out, old_number.as_str());
    st.line_number.paint(out, new_number.as_str());
    out.append(" |");
    let s = match c.tag {
        ChangeTag::Equal => " ",
        ChangeTag::Delete => "-",
        ChangeTag::Insert => "+",
    };
    ts.sign.paint(out, s);
    let ghost head = out@;
    let segs = &c.segments;
    let n = segs.len();
    let mut i: usize = 0;
    while i < n
        invariant
            i <= n,
            n == segs.len(),
            *ts == st.tag_style(c.tag),
            out@ == head + rendered_segments(*ts, segs.deep_view().subrange(0, i as int)),
        decreases n - i,
    {
        if segs[i].0 {
            ts.emphasis.paint(out, segs[i].1.as_str());
        } else {
            ts.text.paint(out, segs[i].1.as_str());
        }
        proof {
            let prefix = segs.deep_view().subrange(0, i + 1);
            assert(prefix.drop_last() =~= segs.deep_view().subrange(0, i as int));
            assert(prefix.last() == segs.deep_view()[i as int]);
            assert(out@ =~= head + rendered_segments(*ts, prefix));
        }
        i = i + 1;
    }
    assert(segs.deep_view().subrange(0, n as int) =~= segs.deep_view());
    if c.missing_newline {
        out.append("\n");
    }
    assert(final(out)@ =~= old(out)@ + rendered_change(*st, c@));
}

/// Renders hunks of changes with `style`.
pub fn render_diff(groups: &Vec<Vec<InlineChange>>, style: &DiffStyle) -> (r: String)
    ensures
        r@ == rendered_hunks(*style, groups_view(groups@)),
{
    let mut out = String::new();
    let ghost gs = groups_view(groups@);
    let n = groups.len();
    let mut i: usize = 0;
    while i < n
        invariant
            i <= n,
            n == groups.len(),
            gs == groups_view(groups@),
            out@ == rendered_hunks(*style, gs.subrange(0, i as int)),
        decreases n - i,
    {
        let ghost start = out@;
        if i > 0 {
            let mut k: usize = 0;
            while k < 80
                invariant
                    k <= 80,
                    out@ == start + Seq::new(k as nat, |j: int| '-'),
                decreases 80 - k,
            {
                out.append("-");
                proof {
                    reveal_strlit("-");
                }
                assert(out@ =~= start + Seq::new((k + 1) as nat, |j: int| '-'));
                k = k + 1;
            }
            out.append("\n");
            proof {
                reveal_strlit("\n");
            }
            assert(out@ =~= start + hunk_divider());
        }
        let ghost mid = out@;
        let g = &groups[i];
        let m = g.len();
        let mut j: usize = 0;
        while j < m
            invariant
                j <= m,
                m == g.len(),
                gs == groups_view(groups@),
                *g == groups@[i as int],
                out@ == mid + rendered_group(*style, changes_view(g@).subrange(0, j as int)),
            decreases m - j,
        {
            render_change(style, &g[j], &mut out);
            proof {
                let prefix = changes_view(g@).subrange(0, j + 1);
                assert(prefix.drop_last() =~= changes_view(g@).subrange(0, j as int));
                assert(prefix.last() == g@[j as int]@);
            }
            j = j + 1;
        }
        proof {
            assert(changes_view(g@).subrange(0, m as int) =~= changes_view(g@));
            let prefix = gs.subrange(0, i + 1);
            assert(prefix.drop_last() =~= gs.subrange(0, i as int));
            assert(prefix.last() == changes_view(g@));
            assert(out@ =~= rendered_hunks(*style, prefix));
        }
        i = i + 1;
    }
    assert(gs.subrange(0, n as int) =~= gs);
    out
}

/// The diff of two texts, rendered with `style`.
pub fn diff_text_styled(text1: &str, text2: &str, style: &DiffStyle) -> (r: String)
    ensures
        r@ == rendered_hunks(*style, line_diff(text1@, text2@, CONTEXT_LINES as nat)),
        text1@ == text2@ ==> r@.len() == 0,
{
    let groups = diff_changes(text1, text2);
    proof {
        if text1@ == text2@ {
            assert(groups_view(groups@) =~= Seq::<Seq<ChangeView>>::empty());
        }
    }
    render_diff(&groups, style)
}

/// The diff of two texts, rendered as plain text.
pub fn diff_text(text1: &str, text2: &str) -> (r: String)
    ensures
        exists|st: DiffStyle| st.is_plain() && r@ == rendered_hunks(st, line_diff(text1@, text2@, CONTEXT_LINES as nat)),
        text1@ == text2@ ==> r@.len() == 0,
{
    let style = DiffStyle::plain();
    diff_text_styled(text1, text2, &style)
}

} // verus!
