use vstd::prelude::*;

verus! {

/// How far line breaking may go: a number of lines, a total height (millionths of a pixel),
/// or both.
#[derive(Debug, Clone, Copy, PartialEq, Eq, Structural)]
pub enum MaxHeight {
    /// At most this many lines.
    Lines(u32),
    /// At most this total height.
    Absolute(i64),
    /// At most this total height and this many lines.
    HeightAndLines(i64, u32),
}

/// What the text-shaping library is asked to do next.
#[derive(Debug, Clone, Copy, PartialEq, Eq, Structural)]
pub enum BreakAction {
    /// Break every line at once; nothing bounds the height.
    BreakAll,
    /// Break the next line and report its height, or that no text is left.
    BreakNext,
    /// Take back the last line, then finish.
    RevertAndFinish,
    /// Keep the lines broken so far and finish.
    Finish,
}

/// The decisions of line breaking under a height or line-count bound, fed one line at a time.
pub struct LineBreaker {
    max_height: Option<MaxHeight>,
    line_count: u32,
    total_height: i64,
    height_before_last: i64,
    exhausted: bool,
}

impl LineBreaker {
    /// The bound this breaker works under.
    pub closed spec fn policy(&self) -> Option<MaxHeight> {
        self.max_height
    }

    /// Lines broken so far.
    pub closed spec fn lines(&self) -> int {
        self.line_count as int
    }

    /// Total height of the lines broken so far.
    pub closed spec fn height(&self) -> int {
        self.total_height as int
    }

    /// Total height of the lines before the last one.
    pub closed spec fn height_before_last(&self) -> int {
        self.height_before_last as int
    }

    /// Whether the text has no more lines.
    pub closed spec fn is_exhausted(&self) -> bool {
        self.exhausted
    }

    /// The height bound, if any.
    pub open spec fn height_bound(p: Option<MaxHeight>) -> Option<int> {
        match p {
            Some(MaxHeight::Absolute(h)) => Some(h as int),
            Some(MaxHeight::HeightAndLines(h, _)) => Some(h as int),
            _ => None,
        }
    }

    /// The line bound, if any.
    pub open spec fn line_bound(p: Option<MaxHeight>) -> Option<int> {
        match p {
            Some(MaxHeight::Lines(n)) => Some(n as int),
            Some(MaxHeight::HeightAndLines(_, n)) => Some(n as int),
            _ => None,
        }
    }

    /// What comes next, given the lines so far.
    pub open spec fn next_action(&self) -> BreakAction {
        match self.policy() {
            None => BreakAction::BreakAll,
            Some(MaxHeight::Lines(n)) => if !self.is_exhausted() && self.lines() < n {
                BreakAction::BreakNext
            } else {
                BreakAction::Finish
            },
            Some(MaxHeight::Absolute(h)) => if !self.is_exhausted() && self.height() < h {
                BreakAction::BreakNext
            } else if self.height() > h && self.lines() > 0 {
                BreakAction::RevertAndFinish
            } else {
                BreakAction::Finish
            },
            Some(MaxHeight::HeightAndLines(h, n)) => if !self.is_exhausted() && self.height() < h
                && self.lines() < n {
                BreakAction::BreakNext
            } else if self.height() > h && self.lines() > 0 {
                BreakAction::RevertAndFinish
            } else {
                BreakAction::Finish
            },
        }
    }

    /// Lines are only broken while the bounds allow another one: the count stays within the
    /// line bound, and the lines before the last stay under the height bound.
    pub closed spec fn wf(&self) -> bool {
        &&& self.height_before_last >= 0
        &&& self.total_height >= self.height_before_last
        &&& (self.line_count == 0 ==> self.total_height == 0)
        &&& (LineBreaker::line_bound(self.max_height) matches Some(n) ==> self.line_count <= n)
        &&& (LineBreaker::height_bound(self.max_height) matches Some(h) ==> (self.line_count > 0
            ==> self.height_before_last < h) && (self.line_count == 0 ==> self.total_height
            <= h || h < 0))
    }

    /// A breaker that has broken no line yet.
    pub fn new(max_height: Option<MaxHeight>) -> (r: Self)
        ensures
            r.wf(),
            r.policy() == max_height,
            r.lines() == 0,
            r.height() == 0,
            !r.is_exhausted(),
    {
        LineBreaker { max_height, line_count: 0, total_height: 0, height_before_last: 0, exhausted: false }
    }

    /// What the text-shaping library is asked to do next.
    pub fn action(&self) -> (r: BreakAction)
        ensures
            r == self.next_action(),
    {
        match self.max_height {
            None => BreakAction::BreakAll,
            Some(MaxHeight::Lines(n)) => {
                if !self.exhausted && self.line_count < n {
                    BreakAction::BreakNext
                } else {
                    BreakAction::Finish
                }
            },
            Some(MaxHeight::Absolute(h)) => {
                if !self.exhausted && self.total_height < h {
                    BreakAction::BreakNext
                } else if self.total_height > h && self.line_count > 0 {
                    BreakAction::RevertAndFinish
                } else {
                    BreakAction::Finish
                }
            },
            Some(MaxHeight::HeightAndLines(h, n)) => {
                if !self.exhausted && self.total_height < h && self.line_count < n {
                    BreakAction::BreakNext
                } else if self.total_height > h && self.line_count > 0 {
                    BreakAction::RevertAndFinish
                } else {
                    BreakAction::Finish
                }
            },
        }
    }

    /// Records what the last `BreakNext` gave: the height of the new line (millionths of a
    /// pixel, not negative), or `None` when no text was left.
    pub fn on_line(&mut self, line_height: Option<i64>)
        requires
            old(self).wf(),
            old(self).next_action() == BreakAction::BreakNext,
            old(self).lines() < u32::MAX,
            line_height matches Some(h) ==> h >= 0,
        ensures
            final(self).wf(),
            final(self).policy() == old(self).policy(),
            line_height is None ==> final(self).is_exhausted() && final(self).lines() == old(self).lines()
                && final(self).height() == old(self).height() && final(self).height_before_last()
                == old(self).height_before_last(),
            line_height matches Some(h) ==> {
                &&& !final(self).is_exhausted()
                &&& final(self).lines() == old(self).lines() + 1
                &&& final(self).height_before_last() == old(self).height()
                &&& final(self).height() == (if old(self).height() + h > i64::MAX {
                    i64::MAX as int
                } else {
                    old(self).height() + h
                })
            },
    {
        match line_height {
            None => {
                self.exhausted = true;
            },
            Some(h) => {
                self.height_before_last = self.total_height;
                self.total_height = if self.total_height > i64::MAX - h {
                    i64::MAX
                } else {
                    self.total_height + h
                };
                self.line_count = self.line_count + 1;
            },
        }
    }

    /// The lines and total height that stay once the breaker is done: a last line that went
    /// over the height bound is taken back.
    pub fn committed(&self) -> (r: (u32, i64))
        requires
            self.wf(),
        ensures
            self.next_action() == BreakAction::RevertAndFinish ==> r.0 == self.lines() - 1 && r.1
                == self.height_before_last(),
            self.next_action() != BreakAction::RevertAndFinish ==> r.0 == self.lines() && r.1
                == self.height(),
            self.next_action() != BreakAction::BreakNext && self.next_action() != BreakAction::BreakAll ==> {
                &&& (LineBreaker::line_bound(self.policy()) matches Some(n) ==> r.0 <= n)
                &&& (LineBreaker::height_bound(self.policy()) matches Some(h) ==> h >= 0 ==> r.1 <= h)
            },
    {
        if self.action() == BreakAction::RevertAndFinish {
            (self.line_count - 1, self.height_before_last)
        } else {
            (self.line_count, self.total_height)
        }
    }
}

/// Total height of the first `k` lines.
pub open spec fn prefix_height(heights: Seq<i64>, k: int) -> int
    decreases k,
{
    if k <= 0 || k > heights.len() {
        0
    } else {
        prefix_height(heights, k - 1) + heights[k - 1]
    }
}

/// Whether breaking stops after `lines` lines of total height `height`.
pub open spec fn bound_reached(bound: MaxHeight, lines: int, height: int) -> bool {
    match bound {
        MaxHeight::Lines(n) => lines >= n,
        MaxHeight::Absolute(h) => height >= h,
        MaxHeight::HeightAndLines(h, n) => height >= h || lines >= n,
    }
}

/// How many lines are broken, counting from `k`, before the bound is reached or the text
/// runs out.
pub open spec fn lines_broken(heights: Seq<i64>, bound: MaxHeight, k: int) -> int
    decreases heights.len() - k,
{
    if k >= heights.len() || bound_reached(bound, k, prefix_height(heights, k)) {
        k
    } else {
        lines_broken(heights, bound, k + 1)
    }
}

/// The lines and height that line breaking keeps for text whose lines have heights
/// `heights`: every line without a bound; otherwise the lines broken until the bound is
/// reached, minus the last one if it took the height over the height bound.
pub open spec fn lines_kept(heights: Seq<i64>, max_height: Option<MaxHeight>) -> (int, int) {
    match max_height {
        None => (heights.len() as int, prefix_height(heights, heights.len() as int)),
        Some(bound) => {
            let k = lines_broken(heights, bound, 0);
            if LineBreaker::height_bound(max_height) matches Some(h) && prefix_height(heights, k) > h
                && k > 0 {
                (k - 1, prefix_height(heights, k - 1))
            } else {
                (k, prefix_height(heights, k))
            }
        },
    }
}

/// Prefix heights grow with the number of lines.
proof fn lemma_prefix_monotone(heights: Seq<i64>, j: int, k: int)
    requires
        0 <= j <= k <= heights.len(),
        forall|i: int| 0 <= i < heights.len() ==> heights[i] >= 0,
    ensures
        0 <= prefix_height(heights, j) <= prefix_height(heights, k),
    decreases k,
{
    if k > 0 {
        lemma_prefix_monotone(heights, if j < k { j } else { k - 1 }, k - 1);
    }
}

/// Runs line breaking over text whose natural lines have the heights `heights` (millionths
/// of a pixel), and returns how many lines and how much height are kept.
pub fn break_lines(heights: &Vec<i64>, max_height: Option<MaxHeight>) -> (r: (u32, i64))
    requires
        forall|i: int| 0 <= i < heights@.len() ==> heights@[i] >= 0,
        heights@.len() < u32::MAX,
        prefix_height(heights@, heights@.len() as int) <= i64::MAX,
    ensures
        (r.0 as int, r.1 as int) == lines_kept(heights@, max_height),
        LineBreaker::line_bound(max_height) matches Some(n) ==> r.0 <= n,
        LineBreaker::height_bound(max_height) matches Some(h) ==> h >= 0 ==> r.1 <= h,
{
    let ghost hs = heights@;
    let mut breaker = LineBreaker::new(max_height);
    if breaker.action() == BreakAction::BreakAll {
        let mut total: i64 = 0;
        let mut i: usize = 0;
        while i < heights.len()
            invariant
                i <= hs.len(),
                hs == heights@,
                total == prefix_height(hs, i as int),
                prefix_height(hs, hs.len() as int) <= i64::MAX,
                forall|j: int| 0 <= j < hs.len() ==> hs[j] >= 0,
            decreases hs.len() - i,
        {
            proof {
                lemma_prefix_monotone(hs, i + 1, hs.len() as int);
            }
            total = total + heights[i];
            i = i + 1;
        }
        return (heights.len() as u32, total);
    }
    let ghost bound = max_height.unwrap();
    let mut next: usize = 0;
    while breaker.action() == BreakAction::BreakNext
        invariant
            breaker.wf(),
            breaker.policy() == max_height,
            max_height == Some(bound),
            hs == heights@,
            next <= hs.len(),
            hs.len() < u32::MAX,
            breaker.lines() == next,
            breaker.height() == prefix_height(hs, next as int),
            next > 0 ==> breaker.height_before_last() == prefix_height(hs, next - 1),
            breaker.is_exhausted() ==> next == hs.len(),
            lines_broken(hs, bound, 0) == lines_broken(hs, bound, next as int),
            prefix_height(hs, hs.len() as int) <= i64::MAX,
            forall|j: int| 0 <= j < hs.len() ==> hs[j] >= 0,
        decreases hs.len() - next + if breaker.is_exhausted() { 0int } else { 1int },
    {
        if next < heights.len() {
            proof {
                lemma_prefix_monotone(hs, next + 1, hs.len() as int);
                assert(!bound_reached(bound, next as int, prefix_height(hs, next as int)));
            }
            breaker.on_line(Some(heights[next]));
            next = next + 1;
        } else {
            breaker.on_line(None);
        }
    }
    proof {
        if !breaker.is_exhausted() && next < hs.len() {
            assert(bound_reached(bound, next as int, prefix_height(hs, next as int)));
        }
        assert(lines_broken(hs, bound, next as int) == next);
    }
    let r = breaker.committed();
    r
}

} // verus!

verus! {

/// `v` rounded up to a whole pixel (millionths, `v >= 0`).
pub open spec fn ceil_px(v: int) -> int {
    ((v + crate::numeric::UNIT - 1) / (crate::numeric::UNIT as int)) * crate::numeric::UNIT
}

/// The widest advance among the first `k` lines (zero for none).
pub open spec fn max_advance(lines: Seq<(i64, i64)>, k: int) -> int
    decreases k,
{
    if k <= 0 || k > lines.len() {
        0
    } else if lines[k - 1].0 > max_advance(lines, k - 1) {
        lines[k - 1].0 as int
    } else {
        max_advance(lines, k - 1)
    }
}

/// The total line height of the first `k` lines.
pub open spec fn total_line_height(lines: Seq<(i64, i64)>, k: int) -> int
    decreases k,
{
    if k <= 0 || k > lines.len() {
        0
    } else {
        total_line_height(lines, k - 1) + lines[k - 1].1
    }
}

/// The intrinsic size of broken lines given as `(advance, line height)` pairs (millionths):
/// the widest advance rounded up to a pixel and capped at `max_width`, and the total height
/// rounded up to a pixel.
pub fn measure_lines(lines: &Vec<(i64, i64)>, max_width: i64) -> (r: (i64, i64))
    requires
        forall|i: int| 0 <= i < lines@.len() ==> 0 <= (#[trigger] lines@[i]).0 <= crate::numeric::LIMIT
            && 0 <= lines@[i].1 <= crate::numeric::LIMIT,
    ensures
        r.0 == (if ceil_px(max_advance(lines@, lines@.len() as int)) < max_width {
            ceil_px(max_advance(lines@, lines@.len() as int))
        } else {
            max_width as int
        }),
        r.1 == crate::numeric::clamp_i64(ceil_px(total_line_height(lines@, lines@.len() as int))),
{
    let mut widest: i64 = 0;
    let mut total: i128 = 0;
    let mut i: usize = 0;
    while i < lines.len()
        invariant
            i <= lines@.len(),
            forall|j: int| 0 <= j < lines@.len() ==> 0 <= (#[trigger] lines@[j]).0 <= crate::numeric::LIMIT
                && 0 <= lines@[j].1 <= crate::numeric::LIMIT,
            widest == max_advance(lines@, i as int),
            0 <= widest <= crate::numeric::LIMIT,
            total == total_line_height(lines@, i as int),
            0 <= total <= i * crate::numeric::LIMIT,
            i <= usize::MAX,
        decreases lines@.len() - i,
    {
        let (advance, height) = lines[i];
        if advance > widest {
            widest = advance;
        }
        proof {
            assert(i * crate::numeric::LIMIT <= 0x1_0000_0000_0000_0000 * crate::numeric::LIMIT) by (nonlinear_arith)
                requires i <= 0x1_0000_0000_0000_0000int;
        }
        total = total + height as i128;
        i = i + 1;
    }
    let width = (widest + crate::numeric::UNIT - 1) / crate::numeric::UNIT * crate::numeric::UNIT;
    let height = (total + crate::numeric::UNIT as i128 - 1) / crate::numeric::UNIT as i128 * crate::numeric::UNIT as i128;
    (if width < max_width { width } else { max_width }, crate::numeric::saturate(height))
}

/// The space an inline flow may take along an axis, as the external layout engine offers it.
#[derive(Debug, Clone, Copy, PartialEq, Eq, Structural)]
pub enum AvailableSpace {
    /// A definite amount (millionths of a pixel).
    Definite(i64),
    /// As narrow as the content allows.
    MinContent,
    /// As wide as the content wants.
    MaxContent,
}

/// The width an inline flow breaks at and the bound on its lines: a known width wins, else
/// the available space (none at all under max-content); a known viewport height and a line
/// clamp bound the lines.
pub fn create_inline_constraint(
    known_width: Option<i64>,
    available_width: AvailableSpace,
    viewport_height: Option<u32>,
    line_clamp: Option<u32>,
) -> (r: (i64, Option<MaxHeight>))
    ensures
        r.0 == match known_width {
            Some(w) => w,
            None => match available_width {
                AvailableSpace::Definite(w) => w,
                AvailableSpace::MinContent => 0,
                AvailableSpace::MaxContent => i64::MAX,
            },
        },
        r.1 == match (viewport_height, line_clamp) {
            (Some(h), Some(n)) => Some(MaxHeight::HeightAndLines((h as i64 * crate::numeric::UNIT) as i64, n)),
            (Some(h), None) => Some(MaxHeight::Absolute((h as i64 * crate::numeric::UNIT) as i64)),
            (None, Some(n)) => Some(MaxHeight::Lines(n)),
            (None, None) => None,
        },
{
    let width = match known_width {
        Some(w) => w,
        None => match available_width {
            AvailableSpace::Definite(w) => w,
            AvailableSpace::MinContent => 0,
            AvailableSpace::MaxContent => i64::MAX,
        },
    };
    let max_height = match (viewport_height, line_clamp) {
        (Some(h), Some(n)) => Some(MaxHeight::HeightAndLines(h as i64 * crate::numeric::UNIT, n)),
        (Some(h), None) => Some(MaxHeight::Absolute(h as i64 * crate::numeric::UNIT)),
        (None, Some(n)) => Some(MaxHeight::Lines(n)),
        (None, None) => None,
    };
    (width, max_height)
}

} // verus!

verus! {

/// How the lines of a paragraph are re-justified after breaking.
#[derive(Debug, Clone, Copy, PartialEq, Eq, Structural)]
pub enum TextWrapStyle {
    /// Keep the lines as broken.
    Auto,
    /// Even out line widths across the paragraph.
    Balance,
    /// Avoid short last lines.
    Pretty,
}

/// A piece of paragraph input for the text-shaping library: a run of text, or an inline box
/// placed at a byte offset of the text, with its id and size (millionths of a pixel).
#[derive(Debug, PartialEq, Eq)]
pub enum InlinePiece {
    /// A run of text.
    Text(String),
    /// An atomic inline box.
    Box {
        /// Byte offset into the paragraph text where the box stands.
        index: usize,
        /// Number of boxes before this one.
        id: u64,
        /// Width of the box.
        width: i64,
        /// Height of the box.
        height: i64,
    },
}

/// Total UTF-8 length of the texts among the first `i` items.
pub open spec fn text_bytes_before(items: Seq<crate::tree::InlineEntry>, i: int) -> int
    decreases i,
{
    if i <= 0 || i > items.len() {
        0
    } else {
        text_bytes_before(items, i - 1) + match items[i - 1].item {
            crate::style::InlineContentKind::Text(t) => vstd::utf8::encode_utf8(t@).len() as int,
            crate::style::InlineContentKind::Box => 0,
        }
    }
}

/// Number of atomic boxes among the first `i` items.
pub open spec fn boxes_before(items: Seq<crate::tree::InlineEntry>, i: int) -> int
    decreases i,
{
    if i <= 0 || i > items.len() {
        0
    } else {
        boxes_before(items, i - 1) + match items[i - 1].item {
            crate::style::InlineContentKind::Text(_) => 0int,
            crate::style::InlineContentKind::Box => 1int,
        }
    }
}

/// What item `i` of `items` becomes, with `sizes` the measured size of each box in order.
pub open spec fn piece_of(
    items: Seq<crate::tree::InlineEntry>,
    sizes: Seq<(i64, i64)>,
    i: int,
) -> InlinePiece {
    match items[i].item {
        crate::style::InlineContentKind::Text(t) => InlinePiece::Text(t),
        crate::style::InlineContentKind::Box => InlinePiece::Box {
            index: text_bytes_before(items, i) as usize,
            id: boxes_before(items, i) as u64,
            width: sizes[boxes_before(items, i)].0,
            height: sizes[boxes_before(items, i)].1,
        },
    }
}

/// Counting boxes never gives more than the items counted, nor less than none.
proof fn lemma_boxes_before_bounds(items: Seq<crate::tree::InlineEntry>, i: int)
    requires
        0 <= i <= items.len(),
    ensures
        0 <= boxes_before(items, i) <= i,
        0 <= text_bytes_before(items, i),
    decreases i,
{
    if i > 0 {
        lemma_boxes_before_bounds(items, i - 1);
    }
}

/// Turns the inline items of a paragraph into the pieces the text-shaping library is given:
/// texts as they are, and each box at the byte offset of the text before it, numbered in
/// document order, with its measured size.
pub fn inline_pieces(items: &Vec<crate::tree::InlineEntry>, box_sizes: &Vec<(i64, i64)>) -> (r: Vec<InlinePiece>)
    requires
        box_sizes@.len() == boxes_before(items@, items@.len() as int),
        text_bytes_before(items@, items@.len() as int) <= usize::MAX,
    ensures
        r@.len() == items@.len(),
        forall|i: int| 0 <= i < items@.len() ==> #[trigger] r@[i] == piece_of(items@, box_sizes@, i),
{
    let mut out: Vec<InlinePiece> = Vec::new();
    let mut index: usize = 0;
    let mut id: usize = 0;
    let mut i: usize = 0;
    while i < items.len()
        invariant
            i <= items@.len(),
            out@.len() == i,
            index == text_bytes_before(items@, i as int),
            id == boxes_before(items@, i as int),
            box_sizes@.len() == boxes_before(items@, items@.len() as int),
            text_bytes_before(items@, items@.len() as int) <= usize::MAX,
            forall|j: int| 0 <= j < i ==> #[trigger] out@[j] == piece_of(items@, box_sizes@, j),
        decreases items@.len() - i,
    {
        proof {
            lemma_text_bytes_monotone(items@, i + 1, items@.len() as int);
            lemma_boxes_monotone(items@, i + 1, items@.len() as int);
            lemma_boxes_before_bounds(items@, i as int);
        }
        match &items[i].item {
            crate::style::InlineContentKind::Text(t) => {
                let n = t.as_str().len();
                out.push(InlinePiece::Text(t.clone()));
                index = index + n;
            },
            crate::style::InlineContentKind::Box => {
                let (width, height) = box_sizes[id];
                out.push(InlinePiece::Box { index, id: id as u64, width, height });
                id = id + 1;
            },
        }
        i = i + 1;
    }
    out
}

/// The text length before item `j` is at most that before item `k >= j`.
proof fn lemma_text_bytes_monotone(items: Seq<crate::tree::InlineEntry>, j: int, k: int)
    requires
        0 <= j <= k <= items.len(),
    ensures
        text_bytes_before(items, j) <= text_bytes_before(items, k),
    decreases k - j,
{
    if j < k {
        lemma_text_bytes_monotone(items, j, k - 1);
    }
}

/// The box count before item `j` is at most that before item `k >= j`.
proof fn lemma_boxes_monotone(items: Seq<crate::tree::InlineEntry>, j: int, k: int)
    requires
        0 <= j <= k <= items.len(),
    ensures
        boxes_before(items, j) <= boxes_before(items, k),
    decreases k - j,
{
    if j < k {
        lemma_boxes_monotone(items, j, k - 1);
    }
}

/// The re-justification pass to run after line breaking: none for measuring, otherwise the
/// node's own wrap style, or its parent's when it has none.
pub fn rejustify_pass(measure_only: bool, style: Option<TextWrapStyle>, parent: TextWrapStyle) -> (r: Option<TextWrapStyle>)
    ensures
        measure_only ==> r is None,
        !measure_only ==> r == Some(
            match style {
                Some(s) => s,
                None => parent,
            },
        ),
{
    if measure_only {
        None
    } else {
        match style {
            Some(s) => Some(s),
            None => Some(parent),
        }
    }
}

/// The bound on the lines of a box drawn at height `height`: its line clamp too, if any.
pub fn draw_max_height(height: i64, line_clamp: Option<u32>) -> (r: MaxHeight)
    ensures
        r == match line_clamp {
            Some(n) => MaxHeight::HeightAndLines(height, n),
            None => MaxHeight::Absolute(height),
        },
{
    match line_clamp {
        Some(n) => MaxHeight::HeightAndLines(height, n),
        None => MaxHeight::Absolute(height),
    }
}

} // verus!
