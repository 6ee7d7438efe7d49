//! A perfect binary tree without payload: built to a given depth, counted,
//! and rendered as depth-indented lines.
use vstd::arithmetic::power2::{lemma_pow2_unfold, pow2};
use vstd::prelude::*;
use vstd::string::StringExecFns;

verus! {

/// A perfect binary tree without payload, held by a root node.
pub struct BinaryTree {
    head: Option<Box<BinaryNode>>,
}

/// A node of a [`BinaryTree`], with an optional child on each side.
pub struct BinaryNode {
    left: Option<Box<BinaryNode>>,
    right: Option<Box<BinaryNode>>,
}

/// How many nodes hang from an optional child: the child and all below it.
pub closed spec fn side_size(side: Option<Box<BinaryNode>>) -> nat
    decreases side,
{
    match side {
        None => 0,
        Some(node) => 1 + node.size(),
    }
}

/// How many levels of nodes hang from an optional child.
pub closed spec fn side_height(side: Option<Box<BinaryNode>>) -> nat
    decreases side,
{
    match side {
        None => 0,
        Some(node) => 1 + node.height(),
    }
}

/// Whether an optional child is present and a perfect tree `h` levels deep.
pub closed spec fn side_perfect(side: Option<Box<BinaryNode>>, h: nat) -> bool
    decreases side,
{
    match side {
        None => false,
        Some(node) => node.perfect(h),
    }
}

impl BinaryNode {
    /// The number of nodes below this one, this one not counted.
    pub closed spec fn size(self) -> nat
        decreases self,
    {
        side_size(self.left) + side_size(self.right)
    }

    /// The number of levels below this one: 0 for a leaf.
    pub closed spec fn height(self) -> nat
        decreases self,
    {
        let l = side_height(self.left);
        let r = side_height(self.right);
        if l >= r {
            l
        } else {
            r
        }
    }

    /// Whether this node is a leaf when `h` is 0, and otherwise has two
    /// children that are each perfect with `h - 1` levels below them.
    pub closed spec fn perfect(self, h: nat) -> bool
        decreases self,
    {
        if h == 0 {
            self.left is None && self.right is None
        } else {
            side_perfect(self.left, (h - 1) as nat) && side_perfect(self.right, (h - 1) as nat)
        }
    }
}

impl BinaryTree {
    /// The number of nodes below the root, the root not counted.
    pub closed spec fn size(self) -> nat {
        match self.head {
            None => 0,
            Some(node) => node.size(),
        }
    }

    /// The number of levels below the root.
    pub closed spec fn height(self) -> nat {
        match self.head {
            None => 0,
            Some(node) => node.height(),
        }
    }

    /// Whether the root is present and perfect with `h` levels below it.
    pub closed spec fn perfect(self, h: nat) -> bool {
        side_perfect(self.head, h)
    }
}

/// A perfect node with `h` levels below it has `h` for height and
/// `2 * (2^h - 1)` nodes below it.
pub proof fn lemma_perfect_node(n: BinaryNode, h: nat)
    requires
        n.perfect(h),
    ensures
        n.height() == h,
        n.size() + 2 == 2 * pow2(h),
    decreases h,
{
    reveal(pow2);
    if h == 0 {
        assert(pow2(0) == 1) by {
            vstd::arithmetic::power::lemma_pow0(2);
        }
    } else {
        let l = *n.left->0;
        let r = *n.right->0;
        lemma_perfect_node(l, (h - 1) as nat);
        lemma_perfect_node(r, (h - 1) as nat);
        lemma_pow2_unfold(h);
    }
}

/// A tree built for depth `d` has `2 * (2^(d+1) - 1)` nodes below its root,
/// and `d + 1` levels.
pub proof fn lemma_tree_size(t: BinaryTree, d: nat)
    requires
        t.perfect(d + 1),
    ensures
        t.size() == 2 * (pow2(d + 1) - 1),
        t.height() == d + 1,
{
    lemma_perfect_node(*t.head->0, d + 1);
}

impl BinaryNode {
    /// A node `depth - current_step` levels above its leaves, with every level
    /// full.
    pub fn new(depth: usize, current_step: usize) -> (r: Option<Box<BinaryNode>>)
        requires
            current_step <= depth,
        ensures
            side_perfect(r, (depth - current_step) as nat),
            r is Some,
            r->0.perfect((depth - current_step) as nat),
            r->0.height() == depth - current_step,
            r->0.size() + 2 == 2 * pow2((depth - current_step) as nat),
        decreases depth - current_step,
    {
        let r = if depth == current_step {
            Some(Box::new(BinaryNode { left: None, right: None }))
        } else {
            Some(
                Box::new(
                    BinaryNode {
                        left: BinaryNode::new(depth, current_step + 1),
                        right: BinaryNode::new(depth, current_step + 1),
                    },
                ),
            )
        };
        proof {
            lemma_perfect_node(*r->0, (depth - current_step) as nat);
        }
        r
    }

    /// The number of nodes below this one.
    pub fn count(self) -> (r: usize)
        requires
            self.size() <= usize::MAX,
        ensures
            r == self.size(),
        decreases self,
    {
        BinaryNode::side_count(self.left) + BinaryNode::side_count(self.right)
    }

    fn side_count(side: Option<Box<BinaryNode>>) -> (r: usize)
        requires
            side_size(side) <= usize::MAX,
        ensures
            r == side_size(side),
        decreases side,
    {
        match side {
            None => 0,
            Some(node) => 1 + node.count(),
        }
    }
}

impl BinaryTree {
    /// A tree whose root has two children, each the top of a perfect tree with
    /// `depth` levels below it.
    pub fn new(depth: usize) -> (r: BinaryTree)
        ensures
            r.perfect(depth as nat + 1),
            r.size() == 2 * (pow2(depth as nat + 1) - 1),
            r.height() == depth + 1,
            r.lines_text() == perfect_lines(depth as nat + 1, 0),
    {
        let r = BinaryTree {
            head: Some(
                Box::new(
                    BinaryNode {
                        left: BinaryNode::new(depth, 0),
                        right: BinaryNode::new(depth, 0),
                    },
                ),
            ),
        };
        proof {
            lemma_tree_size(r, depth as nat);
            lemma_perfect_lines(*r.head->0, depth as nat + 1, 0);
        }
        r
    }

    /// The number of nodes below the root.
    pub fn count(self) -> (r: usize)
        requires
            self.size() <= usize::MAX,
        ensures
            r == self.size(),
    {
        match self.head {
            None => 0,
            Some(node) => node.count(),
        }
    }
}

/// The character for a decimal digit `d < 10`.
pub open spec fn digit_char(d: nat) -> char {
    if d == 0 {
        '0'
    } else if d == 1 {
        '1'
    } else if d == 2 {
        '2'
    } else if d == 3 {
        '3'
    } else if d == 4 {
        '4'
    } else if d == 5 {
        '5'
    } else if d == 6 {
        '6'
    } else if d == 7 {
        '7'
    } else if d == 8 {
        '8'
    } else {
        '9'
    }
}

/// `n` written in decimal, without leading zeros.
pub open spec fn decimal_text(n: nat) -> Seq<char>
    decreases n,
{
    if n < 10 {
        seq![digit_char(n)]
    } else {
        decimal_text(n / 10) + seq![digit_char(n % 10)]
    }
}

/// The indentation of a line for a visit at `depth`: `depth + 1` tabs.
pub open spec fn tabs_text(depth: nat) -> Seq<char> {
    Seq::new(depth + 1, |i: int| '\t')
}

/// The line written for a visit at `depth`: its indentation, then the depth.
pub open spec fn line_text(depth: nat) -> Seq<char> {
    tabs_text(depth) + decimal_text(depth)
}

/// The lines written for an optional child visited at `depth`: one for the
/// child, then those of the nodes below it, at `depth + 1`.
pub closed spec fn side_lines(side: Option<Box<BinaryNode>>, depth: nat) -> Seq<Seq<char>>
    decreases side,
{
    match side {
        None => Seq::empty(),
        Some(node) => seq![line_text(depth)] + node.lines_text(depth + 1),
    }
}

/// The texts of a sequence of strings.
pub open spec fn texts(v: Seq<String>) -> Seq<Seq<char>> {
    v.map_values(|s: String| s@)
}

impl BinaryNode {
    /// The lines written for the nodes below this one, visited at `depth`:
    /// those of the left side, then those of the right.
    pub closed spec fn lines_text(self, depth: nat) -> Seq<Seq<char>>
        decreases self,
    {
        side_lines(self.left, depth) + side_lines(self.right, depth)
    }
}

impl BinaryTree {
    /// The lines written for the tree: those below the root, visited at 0.
    pub closed spec fn lines_text(self) -> Seq<Seq<char>> {
        match self.head {
            None => Seq::empty(),
            Some(node) => node.lines_text(0),
        }
    }
}

/// The string for a decimal digit.
fn digit(d: usize) -> (r: &'static str)
    requires
        d < 10,
    ensures
        r@ == seq![digit_char(d as nat)],
{
    if d == 0 {
        proof { reveal_strlit("0"); }
        "0"
    } else if d == 1 {
        proof { reveal_strlit("1"); }
        "1"
    } else if d == 2 {
        proof { reveal_strlit("2"); }
        "2"
    } else if d == 3 {
        proof { reveal_strlit("3"); }
        "3"
    } else if d == 4 {
        proof { reveal_strlit("4"); }
        "4"
    } else if d == 5 {
        proof { reveal_strlit("5"); }
        "5"
    } else if d == 6 {
        proof { reveal_strlit("6"); }
        "6"
    } else if d == 7 {
        proof { reveal_strlit("7"); }
        "7"
    } else if d == 8 {
        proof { reveal_strlit("8"); }
        "8"
    } else {
        proof { reveal_strlit("9"); }
        "9"
    }
}

/// `n` written in decimal.
pub fn decimal(n: usize) -> (r: String)
    ensures
        r@ == decimal_text(n as nat),
    decreases n,
{
    if n < 10 {
        String::from_str(digit(n))
    } else {
        let mut r = decimal(n / 10);
        r.append(digit(n % 10));
        r
    }
}

impl BinaryNode {
    /// The indentation for a visit at `depth`: `depth + 1` tabs.
    pub fn tabs(depth: usize) -> (r: String)
        ensures
            r@ == tabs_text(depth as nat),
    {
        proof { reveal_strlit("\t"); }
        let mut tabs = String::from_str("\t");
        let mut i: usize = 0;
        while i < depth
            invariant
                i <= depth,
                tabs@ == tabs_text(i as nat),
            decreases depth - i,
        {
            proof { reveal_strlit("\t"); }
            tabs.append("\t");
            i = i + 1;
            assert(tabs@ =~= tabs_text(i as nat));
        }
        tabs
    }

    fn line(depth: usize) -> (r: String)
        ensures
            r@ == line_text(depth as nat),
    {
        let mut line = BinaryNode::tabs(depth);
        let number = decimal(depth);
        line.append(number.as_str());
        line
    }

    /// The lines that printing the nodes below this one, visited at `depth`,
    /// writes: for each child present, left first, a line for the child at
    /// `depth`, then the lines below it at `depth + 1`.
    pub fn lines(self, depth: usize) -> (r: Vec<String>)
        requires
            depth + self.height() <= usize::MAX,
        ensures
            texts(r@) == self.lines_text(depth as nat),
        decreases self,
    {
        let mut out: Vec<String> = Vec::new();
        BinaryNode::push_side_lines(self.left, depth, &mut out);
        BinaryNode::push_side_lines(self.right, depth, &mut out);
        assert(texts(out@) =~= self.lines_text(depth as nat));
        out
    }

    /// Adds to `out` the lines for an optional child visited at `depth`.
    fn push_side_lines(side: Option<Box<BinaryNode>>, depth: usize, out: &mut Vec<String>)
        requires
            depth + side_height(side) <= usize::MAX,
        ensures
            texts(final(out)@) == texts(old(out)@) + side_lines(side, depth as nat),
        decreases side,
    {
        match side {
            None => {
                assert(texts(out@) =~= texts(out@) + side_lines(side, depth as nat));
            },
            Some(node) => {
                let ghost before = texts(out@);
                out.push(BinaryNode::line(depth));
                let mut below = node.lines(depth + 1);
                out.append(&mut below);
                assert(texts(out@) =~= before + side_lines(side, depth as nat));
            },
        }
    }
}

impl BinaryTree {
    /// The lines that printing the tree writes, in order: those of the nodes
    /// below the root, visited at depth 0.
    pub fn lines(self) -> (r: Vec<String>)
        requires
            self.height() <= usize::MAX,
        ensures
            texts(r@) == self.lines_text(),
    {
        match self.head {
            None => Vec::new(),
            Some(node) => node.lines(0),
        }
    }
}

/// The lines written for the nodes below a perfect node with `h` levels below
/// it, visited at `depth`: for the left child a line at `depth` and the lines
/// of its own subtree at `depth + 1`, then the same again for the right child.
pub open spec fn perfect_lines(h: nat, depth: nat) -> Seq<Seq<char>>
    decreases h,
{
    if h == 0 {
        Seq::empty()
    } else {
        let side = seq![line_text(depth)] + perfect_lines((h - 1) as nat, depth + 1);
        side + side
    }
}

/// An optional child that is perfect with `h` levels below it is present, and
/// its node is perfect with `h` levels below it.
pub proof fn lemma_side_perfect(side: Option<Box<BinaryNode>>, h: nat)
    requires
        side_perfect(side, h),
    ensures
        side is Some,
        side->0.perfect(h),
{
}

/// The lines below a perfect node with `h` levels below it, visited at
/// `depth`, are `perfect_lines(h, depth)`.
pub proof fn lemma_perfect_lines(n: BinaryNode, h: nat, depth: nat)
    requires
        n.perfect(h),
    ensures
        n.lines_text(depth) == perfect_lines(h, depth),
    decreases h,
{
    if h == 0 {
        assert(n.lines_text(depth) =~= perfect_lines(h, depth));
    } else {
        let l = *n.left->0;
        let r = *n.right->0;
        lemma_perfect_lines(l, (h - 1) as nat, depth + 1);
        lemma_perfect_lines(r, (h - 1) as nat, depth + 1);
        assert(n.lines_text(depth) =~= perfect_lines(h, depth));
    }
}

/// Two trees built for the same depth write the same lines: what printing
/// writes depends on the depth alone.
pub proof fn lemma_lines_depend_on_depth(t1: BinaryTree, t2: BinaryTree, d: nat)
    requires
        t1.perfect(d + 1),
        t2.perfect(d + 1),
    ensures
        t1.lines_text() == t2.lines_text(),
        t1.lines_text() == perfect_lines(d + 1, 0),
{
    lemma_perfect_lines(*t1.head->0, d + 1, 0);
    lemma_perfect_lines(*t2.head->0, d + 1, 0);
}

/// The lines of a tree built for depth `d` are those of the root's left child
/// and its subtree, all of them before those of the right child and its
/// subtree: a line at depth 0, then the subtree's lines from depth 1, twice.
pub proof fn lemma_left_lines_first(t: BinaryTree, d: nat)
    requires
        t.perfect(d + 1),
    ensures
        t.lines_text() == (seq![line_text(0)] + perfect_lines(d, 1)) + (seq![line_text(0)]
            + perfect_lines(d, 1)),
        t.lines_text().len() == 2 * (1 + perfect_lines(d, 1).len()),
{
    lemma_perfect_lines(*t.head->0, d + 1, 0);
}

} // verus!
