//! Virtual paths: normalized, slash-separated identities for in-memory
//! resources. Two paths denote the same resource exactly when their
//! normalized segment sequences are equal; no filesystem semantics apply.

use vstd::prelude::*;

verus! {

/// Folds one raw segment into an already-normalized segment sequence:
/// empty segments and `.` are dropped, `..` removes the previous normal
/// segment (or is kept when there is none to remove), anything else is kept.
pub open spec fn flush_segment(segs: Seq<Seq<char>>, cur: Seq<char>) -> Seq<Seq<char>> {
    if cur.len() == 0 || cur == seq!['.'] {
        segs
    } else if cur == seq!['.', '.'] {
        if segs.len() > 0 && segs.last() != seq!['.', '.'] {
            segs.drop_last()
        } else {
            segs.push(seq!['.', '.'])
        }
    } else {
        segs.push(cur)
    }
}

/// State of a left-to-right scan of the first `i` characters of `name`:
/// the normalized segments completed so far and the raw segment in progress.
pub open spec fn scan_state(name: Seq<char>, i: int) -> (Seq<Seq<char>>, Seq<char>)
    decreases i,
{
    if i <= 0 {
        (Seq::<Seq<char>>::empty(), Seq::<char>::empty())
    } else {
        let prev = scan_state(name, i - 1);
        if name[i - 1] == '/' {
            (flush_segment(prev.0, prev.1), Seq::<char>::empty())
        } else {
            (prev.0, prev.1.push(name[i - 1]))
        }
    }
}

/// The normalized segment sequence of a raw path name.
pub open spec fn normalized_segments(name: Seq<char>) -> Seq<Seq<char>> {
    let end = scan_state(name, name.len() as int);
    flush_segment(end.0, end.1)
}

/// A normalized virtual path, used as a stable lookup key.
pub struct VirtualPath {
    segments: Vec<Vec<char>>,
}

impl View for VirtualPath {
    type V = Seq<Seq<char>>;

    closed spec fn view(&self) -> Seq<Seq<char>> {
        self.segments.deep_view()
    }
}

/// Compares two character vectors for element-wise equality.
fn chars_eq(a: &Vec<char>, b: &Vec<char>) -> (r: bool)
    ensures
        r == (a@ == b@),
{
    if a.len() != b.len() {
        proof {
            assert(a@ != b@);
        }
        return false;
    }
    let n = a.len();
    let mut i: usize = 0;
    while i < n
        invariant
            i <= n,
            n == a.len() == b.len(),
            forall|k: int| 0 <= k < i ==> a@[k] == b@[k],
        decreases n - i,
    {
        if a[i] != b[i] {
            return false;
        }
        i += 1;
    }
    proof {
        assert(a@ =~= b@);
    }
    true
}

/// True when `s` is exactly `..`.
fn is_parent_marker(s: &Vec<char>) -> (r: bool)
    ensures
        r == (s@ == seq!['.', '.']),
{
    let r = s.len() == 2 && s[0] == '.' && s[1] == '.';
    proof {
        if r {
            assert(s@ =~= seq!['.', '.']);
        } else {
            assert(s@ != seq!['.', '.']) by {
                if s@ == seq!['.', '.'] {
                    assert(s@.len() == 2);
                    assert(s@[0] == '.' && s@[1] == '.');
                }
            }
        }
    }
    r
}

/// True when `s` is exactly `.`.
fn is_current_marker(s: &Vec<char>) -> (r: bool)
    ensures
        r == (s@ == seq!['.']),
{
    let r = s.len() == 1 && s[0] == '.';
    proof {
        if r {
            assert(s@ =~= seq!['.']);
        } else {
            assert(s@ != seq!['.']) by {
                if s@ == seq!['.'] {
                    assert(s@.len() == 1);
                    assert(s@[0] == '.');
                }
            }
        }
    }
    r
}

/// Executable counterpart of [`flush_segment`].
fn flush_into(segs: &mut Vec<Vec<char>>, cur: Vec<char>)
    ensures
        final(segs).deep_view() == flush_segment(old(segs).deep_view(), cur@),
{
    let ghost pre = segs.deep_view();
    if cur.len() == 0 || is_current_marker(&cur) {
        proof {
            assert(segs.deep_view() =~= flush_segment(pre, cur@));
        }
    } else if is_parent_marker(&cur) {
        let n = segs.len();
        if n > 0 && !is_parent_marker(&segs[n - 1]) {
            proof {
                assert(pre.last() == segs@[n - 1 as int]@);
            }
            segs.pop();
            proof {
                assert(segs.deep_view() =~= pre.drop_last());
            }
        } else {
            proof {
                if n > 0 {
                    assert(pre.last() == segs@[n - 1 as int]@);
                }
            }
            segs.push(cur);
            proof {
                assert(segs.deep_view() =~~= pre.push(seq!['.', '.']));
            }
        }
    } else {
        segs.push(cur);
        proof {
            assert(segs.deep_view() =~~= pre.push(cur@));
        }
    }
}

impl VirtualPath {
    /// Builds the normalized path of a raw name. Any name is accepted; the
    /// result is its canonical segment form.
    pub fn new(name: &str) -> (r: VirtualPath)
        ensures
            r@ == normalized_segments(name@),
    {
        let n = name.unicode_len();
        let mut segs: Vec<Vec<char>> = Vec::new();
        let mut cur: Vec<char> = Vec::new();
        let mut i: usize = 0;
        proof {
            assert(segs.deep_view() =~= scan_state(name@, 0).0);
            assert(cur@ =~= scan_state(name@, 0).1);
        }
        while i < n
            invariant
                i <= n,
                n == name@.len(),
                segs.deep_view() == scan_state(name@, i as int).0,
                cur@ == scan_state(name@, i as int).1,
            decreases n - i,
        {
            let c = name.get_char(i);
            if c == '/' {
                flush_into(&mut segs, cur);
                cur = Vec::new();
                proof {
                    assert(cur@ =~= scan_state(name@, i + 1).1);
                }
            } else {
                cur.push(c);
            }
            i += 1;
        }
        flush_into(&mut segs, cur);
        VirtualPath { segments: segs }
    }

    /// The number of segments.
    pub fn segment_count(&self) -> (r: usize)
        ensures
            r == self@.len(),
    {
        self.segments.len()
    }

    /// Path equality: exactly equality of the normalized segment sequences.
    pub fn matches(&self, other: &VirtualPath) -> (r: bool)
        ensures
            r == (self@ == other@),
    {
        if self.segments.len() != other.segments.len() {
            proof {
                assert(self@.len() == self.segments.len());
                assert(other@.len() == other.segments.len());
            }
            return false;
        }
        let n = self.segments.len();
        let mut i: usize = 0;
        while i < n
            invariant
                i <= n,
                n == self.segments.len() == other.segments.len(),
                forall|k: int| 0 <= k < i ==> self@[k] == other@[k],
        decreases n - i,
        {
            let same = chars_eq(&self.segments[i], &other.segments[i]);
            proof {
                assert(self@[i as int] =~= self.segments@[i as int]@);
                assert(other@[i as int] =~= other.segments@[i as int]@);
            }
            if !same {
                return false;
            }
            i += 1;
        }
        proof {
            assert(self@ =~= other@);
        }
        true
    }

    /// An owned copy of this path.
    pub fn duplicate(&self) -> (r: VirtualPath)
        ensures
            r@ == self@,
    {
        let n = self.segments.len();
        let mut segs: Vec<Vec<char>> = Vec::new();
        let mut i: usize = 0;
        while i < n
            invariant
                i <= n,
                n == self.segments.len(),
                segs.len() == i,
                forall|k: int| 0 <= k < i ==> segs.deep_view()[k] == self@[k],
            decreases n - i,
        {
            let mut seg: Vec<char> = Vec::new();
            let m = self.segments[i].len();
            let mut j: usize = 0;
            while j < m
                invariant
                    j <= m,
                    i < n,
                    n == self.segments.len(),
                    m == self.segments@[i as int]@.len(),
                    seg@ == self.segments@[i as int]@.take(j as int),
                decreases m - j,
            {
                seg.push(self.segments[i][j]);
                proof {
                    assert(seg@ =~= self.segments@[i as int]@.take(j + 1));
                }
                j += 1;
            }
            proof {
                assert(seg@ =~= self.segments@[i as int]@);
            }
            segs.push(seg);
            i += 1;
        }
        proof {
            assert(segs.deep_view() =~= self@);
        }
        VirtualPath { segments: segs }
    }
}

} // verus!
