use vstd::prelude::*;

use crate::geometry::{spec_contains, Point, Rect};

verus! {

/// The index as a sequence of (rectangle, URL) entries, oldest first.
pub type AnchorEntries = Seq<(Rect, Seq<char>)>;

/// Whether some entry has exactly this rectangle.
pub open spec fn has_key(s: AnchorEntries, rect: Rect) -> bool {
    exists|i: int| 0 <= i < s.len() && #[trigger] s[i].0 == rect
}

/// No two entries share a rectangle.
pub open spec fn unique_keys(s: AnchorEntries) -> bool {
    forall|i: int, j: int| 0 <= i < j < s.len() ==> #[trigger] s[i].0 != #[trigger] s[j].0
}

/// The entries after an insert: unchanged when the rectangle is already
/// there, the new entry appended otherwise.
pub open spec fn inserted(s: AnchorEntries, rect: Rect, url: Seq<char>) -> AnchorEntries {
    if has_key(s, rect) {
        s
    } else {
        s.push((rect, url))
    }
}

/// The URL of the first entry from position `i` on whose rectangle holds `p`.
pub open spec fn hit_from(s: AnchorEntries, p: Point, i: int) -> Option<Seq<char>>
    decreases s.len() - i,
{
    if i < 0 || i >= s.len() {
        None
    } else if spec_contains(s[i].0, p) {
        Some(s[i].1)
    } else {
        hit_from(s, p, i + 1)
    }
}

/// The URL of the first entry, in insertion order, whose rectangle holds `p`.
pub open spec fn spec_lookup(s: AnchorEntries, p: Point) -> Option<Seq<char>> {
    hit_from(s, p, 0)
}

/// The URL of the first entry from position `i` on with exactly this rectangle.
pub open spec fn key_from(s: AnchorEntries, rect: Rect, i: int) -> Option<Seq<char>>
    decreases s.len() - i,
{
    if i < 0 || i >= s.len() {
        None
    } else if s[i].0 == rect {
        Some(s[i].1)
    } else {
        key_from(s, rect, i + 1)
    }
}

/// The URL that the index holds for exactly this rectangle.
pub open spec fn url_of(s: AnchorEntries, rect: Rect) -> Option<Seq<char>> {
    key_from(s, rect, 0)
}

/// Whether `p` lies on an edge of `r`.
pub open spec fn on_edge(r: Rect, p: Point) -> bool {
    let left = r.x.0 as int;
    let right = r.x.0 + r.width.0;
    let top = r.y.0 as int;
    let bottom = r.y.0 + r.height.0;
    ||| (p.x.0 == left || p.x.0 == right) && top <= p.y.0 <= bottom
    ||| (p.y.0 == top || p.y.0 == bottom) && left <= p.x.0 <= right
}

proof fn lemma_key_from_some(s: AnchorEntries, rect: Rect, i: int)
    requires
        0 <= i,
    ensures
        key_from(s, rect, i).is_some() <==> exists|j: int| i <= j < s.len() && #[trigger] s[j].0 == rect,
    decreases s.len() - i,
{
    if i < s.len() {
        lemma_key_from_some(s, rect, i + 1);
        if key_from(s, rect, i).is_some() && s[i].0 != rect {
            let j = choose|j: int| i + 1 <= j < s.len() && #[trigger] s[j].0 == rect;
            assert(i <= j < s.len() && s[j].0 == rect);
        }
        if exists|j: int| i <= j < s.len() && #[trigger] s[j].0 == rect {
            let j = choose|j: int| i <= j < s.len() && #[trigger] s[j].0 == rect;
            if j != i {
                assert(i + 1 <= j < s.len() && s[j].0 == rect);
            }
        }
    }
}

proof fn lemma_key_from_push(s: AnchorEntries, x: (Rect, Seq<char>), rect: Rect, i: int)
    requires
        0 <= i <= s.len(),
    ensures
        key_from(s.push(x), rect, i) == (match key_from(s, rect, i) {
            Some(u) => Some(u),
            None => if x.0 == rect {
                Some(x.1)
            } else {
                None
            },
        }),
    decreases s.len() - i,
{
    if i < s.len() {
        lemma_key_from_push(s, x, rect, i + 1);
        assert(s.push(x)[i] == s[i]);
    } else {
        assert(s.push(x)[i] == x);
        assert(key_from(s.push(x), rect, i + 1).is_none());
    }
}

proof fn lemma_hit_from_some(s: AnchorEntries, p: Point, i: int, j: int)
    requires
        0 <= i <= j < s.len(),
        spec_contains(s[j].0, p),
    ensures
        hit_from(s, p, i).is_some(),
    decreases j - i,
{
    if i < j && !spec_contains(s[i].0, p) {
        lemma_hit_from_some(s, p, i + 1, j);
    }
}

/// Inserting URL `a` for a rectangle and then URL `b` for the same rectangle
/// leaves the index resolving that rectangle to `a` (or to the URL it
/// already held before both): the first writer wins, the second insert
/// changes nothing.
pub proof fn lemma_first_writer_wins(s: AnchorEntries, rect: Rect, a: Seq<char>, b: Seq<char>)
    ensures
        inserted(inserted(s, rect, a), rect, b) == inserted(s, rect, a),
        url_of(inserted(inserted(s, rect, a), rect, b), rect) == (if has_key(s, rect) {
            url_of(s, rect)
        } else {
            Some(a)
        }),
{
    let s1 = inserted(s, rect, a);
    if !has_key(s, rect) {
        assert(s1[s.len() as int].0 == rect);
        assert(has_key(s1, rect));
        lemma_key_from_some(s, rect, 0);
        lemma_key_from_push(s, (rect, a), rect, 0);
    }
}

/// A point on an edge of a rectangle is a hit: edges belong to the
/// rectangle, and an index holding the rectangle finds a URL at the point.
pub proof fn lemma_edge_hit(s: AnchorEntries, i: int, p: Point)
    requires
        0 <= i < s.len(),
        s[i].0.width.0 >= 0,
        s[i].0.height.0 >= 0,
        on_edge(s[i].0, p),
    ensures
        spec_contains(s[i].0, p),
        spec_lookup(s, p).is_some(),
{
    lemma_hit_from_some(s, p, 0, i);
}

/// Links from rectangles to URLs, kept in insertion order, at most one per
/// rectangle. The first URL given for a rectangle stays.
pub struct AnchorIndex {
    entries: Vec<(Rect, String)>,
}

impl View for AnchorIndex {
    type V = AnchorEntries;

    closed spec fn view(&self) -> AnchorEntries {
        self.entries@.map_values(|e: (Rect, String)| (e.0, e.1@))
    }
}

impl AnchorIndex {
    /// Well-formed: no rectangle appears twice.
    pub open spec fn wf(&self) -> bool {
        unique_keys(self@)
    }

    /// An empty index.
    pub fn new() -> (r: AnchorIndex)
        ensures
            r@ == Seq::<(Rect, Seq<char>)>::empty(),
            r.wf(),
    {
        AnchorIndex { entries: Vec::new() }
    }

    /// The number of entries.
    pub fn len(&self) -> (r: usize)
        ensures
            r == self@.len(),
    {
        self.entries.len()
    }

    /// Links `rect` to `url` unless `rect` is already linked; tells whether
    /// it was.
    pub fn insert(&mut self, rect: Rect, url: String) -> (r: bool)
        requires
            old(self).wf(),
        ensures
            final(self).wf(),
            final(self)@ == inserted(old(self)@, rect, url@),
            r == !has_key(old(self)@, rect),
    {
        let n = self.entries.len();
        let mut i: usize = 0;
        while i < n
            invariant
                n == self.entries.len(),
                0 <= i <= n,
                self.wf(),
                *self == *old(self),
                forall|k: int| 0 <= k < i ==> self@[k].0 != rect,
            decreases n - i,
        {
            if self.entries[i].0 == rect {
                assert(self@[i as int].0 == rect);
                return false;
            }
            i = i + 1;
        }
        let ghost before = self@;
        self.entries.push((rect, url));
        assert(self@ =~= before.push((rect, url@)));
        true
    }

    /// The URL of the first entry, in insertion order, whose rectangle holds
    /// `p` (edges included).
    pub fn lookup(&self, p: Point) -> (r: Option<String>)
        ensures
            match r {
                Some(u) => spec_lookup(self@, p) == Some(u@),
                None => spec_lookup(self@, p).is_none(),
            },
    {
        let n = self.entries.len();
        let mut i: usize = 0;
        while i < n
            invariant
                n == self.entries.len(),
                0 <= i <= n,
                hit_from(self@, p, 0) == hit_from(self@, p, i as int),
            decreases n - i,
        {
            if self.entries[i].0.contains(p) {
                return Some(self.entries[i].1.clone());
            }
            i = i + 1;
        }
        None
    }

    /// Whether some rectangle of the index holds `p` (edges included).
    pub fn hits(&self, p: Point) -> (r: bool)
        ensures
            r == spec_lookup(self@, p).is_some(),
    {
        let n = self.entries.len();
        let mut i: usize = 0;
        while i < n
            invariant
                n == self.entries.len(),
                0 <= i <= n,
                hit_from(self@, p, 0) == hit_from(self@, p, i as int),
            decreases n - i,
        {
            if self.entries[i].0.contains(p) {
                return true;
            }
            i = i + 1;
        }
        false
    }
}

} // verus!
