use vstd::prelude::*;

use crate::data_types::{display_name, DataType};

verus! {

/// Identifier of a lexical scope in the symbol table.
#[derive(PartialEq, Eq, Structural, Debug, Clone, Copy)]
pub struct ScopeID(pub usize);

/// A source token as the lexer hands it over.
pub struct Token {
    /// The token's source text.
    pub value: String,
    /// Binding priority of the token as an operator.
    pub priority: i32,
    /// Line of the token in the source, counting from zero.
    pub line: usize,
    /// Column of the token in its line, counting from zero.
    pub column: usize,
}

/// Index of a node in the arena of the sequence that holds it.
pub type NodeId = usize;

/// The statements of a scope and the scope's identifier.
pub struct ScopeBlock {
    pub statements: Vec<TokenTree>,
    pub scope_id: ScopeID,
}

impl ScopeBlock {
    pub fn new(scope_id: ScopeID) -> (r: ScopeBlock)
        ensures
            r.statements@.len() == 0,
            r.scope_id == scope_id,
    {
        ScopeBlock { statements: Vec::new(), scope_id }
    }
}

/// The nested children of a node.
pub enum ChildrenType {
    /// A list of syntax nodes.
    List(Vec<TokenNode>),
    /// The contents of a bracketed group, while parsing.
    Tree(TokenTree),
    /// A list of statements (a function body, for instance).
    Block(ScopeBlock),
    /// Function parameters, as pairs of name and type.
    FunctionParams(Vec<(String, DataType)>),
    Function { name: String, params: Vec<(String, DataType)>, return_type: DataType, body: ScopeBlock },
    TypeCast { data_type: DataType, expr: Box<TokenNode> },
    Call { callable: Box<TokenNode>, args: Vec<TokenNode> },
}

/// The contents of a node of a syntax sequence; its position is held by the sequence.
pub struct TokenNode {
    /// The syntactical children of the token (its operands or its contents).
    pub children: Option<ChildrenType>,
    /// The source token.
    pub item: Token,
    /// The type this node evaluates to.
    pub data_type: DataType,
}

impl TokenNode {
    pub fn new(item: Token) -> (r: TokenNode)
        ensures
            r.children is None,
            r.item == item,
            r.data_type@ == crate::data_types::Ty::Void,
    {
        TokenNode { children: None, item, data_type: DataType::Void }
    }

    /// Replaces the contents of this node with those of `other`, which is consumed; the
    /// node keeps its place in its sequence.
    pub fn substitute(&mut self, other: TokenNode)
        ensures
            *final(self) == other,
    {
        self.children = other.children;
        self.item = other.item;
        self.data_type = other.data_type;
    }
}

/// The neighbours of a node in its sequence.
#[derive(PartialEq, Eq, Structural, Debug, Clone, Copy)]
pub struct Link {
    pub left: Option<NodeId>,
    pub right: Option<NodeId>,
}

/// A doubly linked sequence of syntax nodes kept in an arena: a node's identity is its
/// index, and splicing rewrites the indices of its neighbours.
pub struct TokenTree {
    slots: Vec<Option<TokenNode>>,
    links: Vec<Link>,
    first: Option<NodeId>,
    last: Option<NodeId>,
    order: Ghost<Seq<NodeId>>,
}

impl View for TokenTree {
    type V = Seq<TokenNode>;

    /// The nodes from left to right.
    closed spec fn view(&self) -> Seq<TokenNode> {
        self.ids().map_values(|id: NodeId| self.slots@[id as int]->Some_0)
    }
}

impl TokenTree {
    /// The identities of the nodes, from left to right.
    pub closed spec fn ids(&self) -> Seq<NodeId> {
        self.order@
    }

    /// Number of arena slots used so far, live or freed.
    pub closed spec fn arena_len(&self) -> nat {
        self.slots@.len()
    }

    /// Position of a node of the sequence.
    pub open spec fn position(&self, id: NodeId) -> int {
        self.ids().index_of(id)
    }

    /// The links agree with the order of the nodes, every node of the order is live, and
    /// every other slot is free.
    pub closed spec fn wf(&self) -> bool {
        let o = self.order@;
        &&& self.slots@.len() == self.links@.len()
        &&& o.len() <= self.slots@.len()
        &&& o.no_duplicates()
        &&& forall|i: int|
            0 <= i < o.len() ==> #[trigger] o[i] < self.slots@.len() && self.slots@[o[i] as int] is Some
        &&& forall|j: int|
            0 <= j < self.slots@.len() && self.slots@[j] is Some ==> o.contains(j as NodeId)
        &&& forall|i: int|
            0 <= i < o.len() ==> (#[trigger] self.links@[o[i] as int]).left == (if i == 0 {
                None
            } else {
                Some(o[i - 1])
            })
        &&& forall|i: int|
            0 <= i < o.len() ==> (#[trigger] self.links@[o[i] as int]).right == (if i == o.len() - 1 {
                None
            } else {
                Some(o[i + 1])
            })
        &&& self.first == (if o.len() == 0 {
            None
        } else {
            Some(o[0])
        })
        &&& self.last == (if o.len() == 0 {
            None
        } else {
            Some(o.last())
        })
    }

    pub fn new() -> (r: TokenTree)
        ensures
            r.wf(),
            r@.len() == 0,
            r.ids().len() == 0,
            r.arena_len() == 0,
    {
        TokenTree {
            slots: Vec::new(),
            links: Vec::new(),
            first: None,
            last: None,
            order: Ghost(Seq::empty()),
        }
    }

    /// Adds `node` at the end of the sequence and returns its identity.
    pub fn push_node(&mut self, node: TokenNode) -> (id: NodeId)
        requires
            old(self).wf(),
            old(self).arena_len() < usize::MAX,
        ensures
            final(self).wf(),
            final(self)@ == old(self)@.push(node),
            final(self).ids() == old(self).ids().push(id),
            !old(self).ids().contains(id),
            final(self).arena_len() == old(self).arena_len() + 1,
    {
        let id = self.slots.len();
        let ghost o = self.order@;
        proof {
            assert forall|i: int| 0 <= i < o.len() implies o[i] != id by {
                assert(o[i] < self.slots@.len());
            }
        }
        self.slots.push(Some(node));
        self.links.push(Link { left: self.last, right: None });
        match self.last {
            Some(l) => {
                let left = self.links[l].left;
                self.links.set(l, Link { left, right: Some(id) });
            },
            None => {
                self.first = Some(id);
            },
        }
        self.last = Some(id);
        self.order = Ghost(o.push(id));
        proof {
            let n = self.order@;
            assert(n.no_duplicates()) by {
                assert forall|i: int, j: int| 0 <= i < j < n.len() implies n[i] != n[j] by {
                    if j == o.len() {
                        assert(o[i] < id);
                    }
                }
            }
            assert forall|i: int| 0 <= i < n.len() implies #[trigger] n[i] < self.slots@.len()
                && self.slots@[n[i] as int] is Some by {
                if i < o.len() {
                    assert(o[i] < id);
                }
            }
            assert forall|j: int|
                0 <= j < self.slots@.len() && self.slots@[j] is Some implies n.contains(
                j as NodeId,
            ) by {
                if j < id {
                    assert(old(self).slots@[j] is Some);
                    assert(o.contains(j as NodeId));
                    let k = choose|k: int| 0 <= k < o.len() && o[k] == j as NodeId;
                    assert(n[k] == j as NodeId);
                } else {
                    assert(n[o.len() as int] == id);
                }
            }
            assert forall|i: int| 0 <= i < n.len() implies (#[trigger] self.links@[n[i] as int]).left
                == (if i == 0 {
                None
            } else {
                Some(n[i - 1])
            }) by {
                if i < o.len() {
                    assert(o[i] < id);
                    assert(o[i] != id);
                }
            }
            assert forall|i: int| 0 <= i < n.len() implies (#[trigger] self.links@[n[i] as int]).right
                == (if i == n.len() - 1 {
                None
            } else {
                Some(n[i + 1])
            }) by {
                if i < o.len() {
                    assert(o[i] < id);
                }
            }
            assert(self@ =~= old(self)@.push(node)) by {
                assert forall|i: int| 0 <= i < o.len() implies self.slots@[o[i] as int] == old(
                    self,
                ).slots@[o[i] as int] by {
                    assert(o[i] < id);
                }
            }
        }
        id
    }

    /// Whether `id` names a node of this sequence.
    pub fn contains(&self, id: NodeId) -> (r: bool)
        requires
            self.wf(),
        ensures
            r == self.ids().contains(id),
    {
        if id < self.slots.len() {
            match &self.slots[id] {
                Some(_) => true,
                None => {
                    proof {
                        if self.ids().contains(id) {
                            let k = choose|k: int| 0 <= k < self.order@.len() && self.order@[k] == id;
                            assert(self.slots@[self.order@[k] as int] is Some);
                        }
                    }
                    false
                },
            }
        } else {
            proof {
                if self.ids().contains(id) {
                    let k = choose|k: int| 0 <= k < self.order@.len() && self.order@[k] == id;
                    assert(self.order@[k] < self.slots@.len());
                }
            }
            false
        }
    }

    /// Removes the node `id` from the sequence, joining its neighbours, and returns its
    /// contents; `None`, with the sequence unchanged, when `id` is not in it.
    #[verifier::spinoff_prover]
    #[verifier::rlimit(100)]
    pub fn extract_node(&mut self, id: NodeId) -> (r: Option<TokenNode>)
        requires
            old(self).wf(),
        ensures
            final(self).wf(),
            final(self).arena_len() == old(self).arena_len(),
            !old(self).ids().contains(id) ==> r is None && *final(self) == *old(self),
            old(self).ids().contains(id) ==> {
                let p = old(self).position(id);
                &&& r == Some(old(self)@[p])
                &&& final(self)@ == old(self)@.remove(p)
                &&& final(self).ids() == old(self).ids().remove(p)
            },
    {
        if !self.contains(id) {
            return None;
        }
        let ghost o = self.order@;
        let ghost p = o.index_of(id);
        assert(o[p] == id);
        let link = self.links[id];
        match link.left {
            Some(l) => {
                let ll = self.links[l].left;
                self.links.set(l, Link { left: ll, right: link.right });
            },
            None => {
                self.first = link.right;
            },
        }
        match link.right {
            Some(rt) => {
                let rr = self.links[rt].right;
                self.links.set(rt, Link { left: link.left, right: rr });
            },
            None => {
                self.last = link.left;
            },
        }
        let node = self.slots[id].take();
        assert(self.slots@ == old(self).slots@.update(id as int, None));
        self.order = Ghost(o.remove(p));
        proof {
            let n = self.order@;
            assert forall|i: int| 0 <= i < n.len() implies #[trigger] n[i] != id by {
                if i < p {
                    assert(o[i] != o[p]);
                } else {
                    assert(o[i + 1] != o[p]);
                }
            }
            assert(n.no_duplicates()) by {
                assert forall|i: int, j: int| 0 <= i < j < n.len() implies n[i] != n[j] by {
                    let oi = if i < p { i } else { i + 1 };
                    let oj = if j < p { j } else { j + 1 };
                    assert(n[i] == o[oi] && n[j] == o[oj]);
                }
            }
            assert forall|i: int| 0 <= i < n.len() implies #[trigger] n[i] < self.slots@.len()
                && self.slots@[n[i] as int] is Some by {
                let oi = if i < p { i } else { i + 1 };
                assert(n[i] == o[oi]);
            }
            assert forall|j: int|
                0 <= j < self.slots@.len() && self.slots@[j] is Some implies n.contains(
                j as NodeId,
            ) by {
                assert(j != id);
                assert(self.slots@.len() == self.slots.len());
                assert(j as NodeId != id);
                assert(old(self).slots@[j] is Some);
                let k = choose|k: int| 0 <= k < o.len() && o[k] == j as NodeId;
                assert(k != p);
                if k < p {
                    assert(n[k] == j as NodeId);
                } else {
                    assert(n[k - 1] == j as NodeId);
                }
            }
            assert forall|i: int| 0 <= i < n.len() implies (#[trigger] self.links@[n[i] as int]).left
                == (if i == 0 {
                None
            } else {
                Some(n[i - 1])
            }) by {
                let oi = if i < p { i } else { i + 1 };
                assert(n[i] == o[oi]);
                assert(old(self).links@[o[oi] as int].left == (if oi == 0 {
                    None
                } else {
                    Some(o[oi - 1])
                }));
                if i > 0 {
                    let oj = if i - 1 < p { i - 1 } else { i };
                    assert(n[i - 1] == o[oj]);
                }
                if oi > 0 {
                    assert(o[oi] != o[oi - 1]);
                }
            }
            assert forall|i: int| 0 <= i < n.len() implies (#[trigger] self.links@[n[i] as int]).right
                == (if i == n.len() - 1 {
                None
            } else {
                Some(n[i + 1])
            }) by {
                let oi = if i < p { i } else { i + 1 };
                assert(n[i] == o[oi]);
                assert(old(self).links@[o[oi] as int].right == (if oi == o.len() - 1 {
                    None
                } else {
                    Some(o[oi + 1])
                }));
                if i < n.len() - 1 {
                    let oj = if i + 1 < p { i + 1 } else { i + 2 };
                    assert(n[i + 1] == o[oj]);
                }
                if oi < o.len() - 1 {
                    assert(o[oi] != o[oi + 1]);
                }
            }
            if n.len() > 0 {
                assert(n[0] == (if p == 0 { o[1] } else { o[0] }));
                assert(n.last() == (if p == o.len() - 1 { o[o.len() - 2] } else { o.last() }));
            }
            assert(self@ =~= old(self)@.remove(p)) by {
                assert forall|i: int| 0 <= i < n.len() implies self.slots@[n[i] as int]
                    == old(self).slots@[n[i] as int] by {
                    assert(n[i] != id);
                }
            }
        }
        node
    }

    proof fn lemma_position(&self, k: int)
        requires
            self.wf(),
            0 <= k < self.ids().len(),
        ensures
            self.ids().contains(self.ids()[k]),
            self.position(self.ids()[k]) == k,
    {
        let o = self.order@;
        assert(o.contains(o[k]));
        let q = o.index_of(o[k]);
        assert(o[q] == o[k]);
    }

    proof fn lemma_live_position(&self, id: NodeId)
        requires
            self.wf(),
            self.ids().contains(id),
        ensures
            0 <= self.position(id) < self.ids().len(),
            self.ids()[self.position(id)] == id,
    {
    }

    /// Adds a new node holding `item` at the end of the sequence.
    pub fn append(&mut self, item: Token)
        requires
            old(self).wf(),
            old(self).arena_len() < usize::MAX,
        ensures
            final(self).wf(),
            final(self)@ == old(self)@.push(TokenNode::new_spec(item)),
    {
        let node = TokenNode::new(item);
        proof {
            assert(node == TokenNode::new_spec(item));
        }
        self.push_node(node);
    }

    /// Removes the first node; does nothing on an empty sequence.
    pub fn drop_first(&mut self)
        requires
            old(self).wf(),
        ensures
            final(self).wf(),
            final(self)@ == if old(self)@.len() == 0 {
                old(self)@
            } else {
                old(self)@.subrange(1, old(self)@.len() as int)
            },
    {
        if let Some(f) = self.first {
            proof {
                self.lemma_position(0);
            }
            let _ = self.extract_node(f);
            assert(final(self)@ =~= old(self)@.subrange(1, old(self)@.len() as int));
        }
    }

    /// Removes the last node; does nothing on an empty sequence.
    pub fn drop_last(&mut self)
        requires
            old(self).wf(),
        ensures
            final(self).wf(),
            final(self)@ == if old(self)@.len() == 0 {
                old(self)@
            } else {
                old(self)@.drop_last()
            },
    {
        if let Some(l) = self.last {
            proof {
                self.lemma_position(self.ids().len() - 1);
            }
            let _ = self.extract_node(l);
            assert(final(self)@ =~= old(self)@.drop_last());
        }
    }

    /// The token of the first node.
    pub fn first_item(&self) -> (r: Option<&Token>)
        requires
            self.wf(),
        ensures
            r == if self@.len() == 0 {
                None
            } else {
                Some(&self@[0].item)
            },
    {
        match self.first {
            Some(f) => match &self.slots[f] {
                Some(n) => Some(&n.item),
                None => None,
            },
            None => None,
        }
    }

    /// The token of the last node.
    pub fn last_item(&self) -> (r: Option<&Token>)
        requires
            self.wf(),
        ensures
            r == if self@.len() == 0 {
                None
            } else {
                Some(&self@.last().item)
            },
    {
        match self.last {
            Some(l) => match &self.slots[l] {
                Some(n) => Some(&n.item),
                None => None,
            },
            None => None,
        }
    }

    /// The identity of the first node.
    pub fn first_node(&self) -> (r: Option<NodeId>)
        requires
            self.wf(),
        ensures
            r == if self.ids().len() == 0 {
                None
            } else {
                Some(self.ids()[0])
            },
    {
        self.first
    }

    /// The identity of the last node.
    pub fn last_node(&self) -> (r: Option<NodeId>)
        requires
            self.wf(),
        ensures
            r == if self.ids().len() == 0 {
                None
            } else {
                Some(self.ids().last())
            },
    {
        self.last
    }

    pub fn is_empty(&self) -> (r: bool)
        requires
            self.wf(),
        ensures
            r == (self@.len() == 0),
    {
        self.first.is_none()
    }

    pub fn has_one_item(&self) -> (r: bool)
        requires
            self.wf(),
        ensures
            r == (self@.len() == 1),
    {
        match (self.first, self.last) {
            (Some(f), Some(l)) => {
                proof {
                    if self.order@.len() > 1 {
                        assert(self.order@[0] != self.order@[self.order@.len() - 1]);
                    }
                }
                f == l
            },
            _ => false,
        }
    }

    /// The contents of node `id`.
    pub fn node(&self, id: NodeId) -> (r: &TokenNode)
        requires
            self.wf(),
            self.ids().contains(id),
        ensures
            *r == self@[self.position(id)],
    {
        proof {
            self.lemma_live_position(id);
        }
        self.slots[id].as_ref().unwrap()
    }

    /// The right neighbour of node `id`.
    pub fn right_of(&self, id: NodeId) -> (r: Option<NodeId>)
        requires
            self.wf(),
            self.ids().contains(id),
        ensures
            r == if self.position(id) == self.ids().len() - 1 {
                None
            } else {
                Some(self.ids()[self.position(id) + 1])
            },
    {
        proof {
            self.lemma_live_position(id);
        }
        self.links[id].right
    }

    /// The left neighbour of node `id`.
    pub fn left_of(&self, id: NodeId) -> (r: Option<NodeId>)
        requires
            self.wf(),
            self.ids().contains(id),
        ensures
            r == if self.position(id) == 0 {
                None
            } else {
                Some(self.ids()[self.position(id) - 1])
            },
    {
        proof {
            self.lemma_live_position(id);
        }
        self.links[id].left
    }

    /// Overwrites the contents of node `id` with `replacement`; the node keeps its
    /// identity and place.
    pub fn substitute(&mut self, id: NodeId, replacement: TokenNode)
        requires
            old(self).wf(),
            old(self).ids().contains(id),
        ensures
            final(self).wf(),
            final(self).ids() == old(self).ids(),
            final(self).arena_len() == old(self).arena_len(),
            final(self)@ == old(self)@.update(old(self).position(id), replacement),
    {
        proof {
            self.lemma_live_position(id);
        }
        self.slots.set(id, Some(replacement));
        proof {
            let o = self.order@;
            let p = old(self).position(id);
            assert forall|i: int| 0 <= i < o.len() && i != p implies o[i] != id by {
                assert(o[i] != o[p]);
            }
            assert(self@ =~= old(self)@.update(p, replacement));
        }
    }
}

impl TokenTree {
    /// Whether `start` and `end` are nodes of this sequence with `start` not after `end`:
    /// the condition under which `extract_slice` may be called.
    pub fn is_run(&self, start: NodeId, end: NodeId) -> (r: bool)
        requires
            self.wf(),
        ensures
            r == (self.ids().contains(start) && self.ids().contains(end) && self.position(start)
                <= self.position(end)),
    {
        if !self.contains(start) || !self.contains(end) {
            return false;
        }
        proof {
            self.lemma_live_position(start);
            self.lemma_live_position(end);
        }
        let ghost a = self.position(start);
        let ghost b = self.position(end);
        let mut cur = start;
        let ghost mut k: int = a;
        loop
            invariant
                self.wf(),
                0 <= a <= k < self.ids().len(),
                cur == self.ids()[k],
                0 <= b < self.ids().len(),
                self.ids()[a] == start,
                self.ids()[b] == end,
                self.position(start) == a,
                self.position(end) == b,
                forall|m: int| a <= m < k ==> self.ids()[m] != end,
            decreases self.ids().len() - k,
        {
            if cur == end {
                assert(self.ids().no_duplicates());
                return true;
            }
            proof {
                self.lemma_position(k);
            }
            match self.right_of(cur) {
                Some(next) => {
                    cur = next;
                    proof {
                        k = k + 1;
                    }
                },
                None => {
                    assert(self.ids().no_duplicates());
                    return false;
                },
            }
        }
    }

    /// Removes the run of nodes from `start` to `end`, both included, and returns it as a
    /// sequence of its own; the nodes on either side of the run become neighbours.
    #[verifier::spinoff_prover]
    #[verifier::rlimit(100)]
    pub fn extract_slice(&mut self, start: NodeId, end: NodeId) -> (r: TokenTree)
        requires
            old(self).wf(),
            old(self).ids().contains(start),
            old(self).ids().contains(end),
            old(self).position(start) <= old(self).position(end),
        ensures
            final(self).wf(),
            r.wf(),
            final(self).arena_len() == old(self).arena_len(),
            ({
                let a = old(self).position(start);
                let b = old(self).position(end);
                let n = old(self)@.len() as int;
                &&& final(self)@ == old(self)@.subrange(0, a) + old(self)@.subrange(b + 1, n)
                &&& final(self).ids() == old(self).ids().subrange(0, a) + old(self).ids().subrange(
                    b + 1,
                    n,
                )
                &&& r@ == old(self)@.subrange(a, b + 1)
            }),
    {
        proof {
            self.lemma_live_position(start);
            self.lemma_live_position(end);
        }
        let ghost a = self.position(start);
        let ghost b = self.position(end);
        let ghost n = self@.len() as int;
        let ghost oi = self.ids();
        let ghost ov = self@;
        assert(self.slots@.len() == self.slots.len());
        let mut slice = TokenTree::new();
        let mut cur = start;
        let mut done = false;
        let ghost mut i: int = 0;
        while !done
            invariant
                old(self).wf(),
                oi == old(self).ids(),
                ov == old(self)@,
                n == ov.len(),
                oi.len() == n,
                0 <= a <= b < n,
                oi.no_duplicates(),
                oi[b] == end,
                self.wf(),
                slice.wf(),
                self.arena_len() == old(self).arena_len(),
                n <= old(self).arena_len() <= usize::MAX,
                slice.arena_len() == i,
                0 <= i <= b - a + 1,
                done ==> i == b - a + 1,
                !done ==> a + i <= b && cur == oi[a + i],
                self@ == ov.subrange(0, a) + ov.subrange(a + i, n),
                self.ids() == oi.subrange(0, a) + oi.subrange(a + i, n),
                slice@ == ov.subrange(a, a + i),
            decreases b - a + 1 - i,
        {
            proof {
                self.lemma_position(a);
            }
            let next = self.right_of(cur);
            let node = self.extract_node(cur);
            slice.push_node(node.unwrap());
            proof {
                assert(self@ =~= ov.subrange(0, a) + ov.subrange(a + i + 1, n));
                assert(self.ids() =~= oi.subrange(0, a) + oi.subrange(a + i + 1, n));
                assert(slice@ =~= ov.subrange(a, a + i + 1));
                i = i + 1;
            }
            if cur == end {
                assert(oi[a + i - 1] == oi[b]);
                done = true;
            } else {
                assert(a + i <= b);
                cur = next.unwrap();
            }
        }
        slice
    }

    /// A sequence holding `nodes` in order.
    pub fn from_slice(nodes: Vec<TokenNode>) -> (r: TokenTree)
        ensures
            r.wf(),
            r@ == nodes@,
    {
        let ghost all = nodes@;
        let n = nodes.len();
        let mut rest = nodes;
        let mut reversed: Vec<TokenNode> = Vec::new();
        while rest.len() > 0
            invariant
                n == all.len(),
                rest@ == all.subrange(0, rest@.len() as int),
                reversed@.len() == n - rest@.len(),
                forall|k: int| 0 <= k < reversed@.len() ==> reversed@[k] == all[n - 1 - k],
            decreases rest@.len(),
        {
            let item = rest.pop().unwrap();
            reversed.push(item);
            assert(rest@ =~= all.subrange(0, rest@.len() as int));
        }
        let mut tree = TokenTree::new();
        while reversed.len() > 0
            invariant
                n == all.len(),
                reversed@.len() <= n,
                forall|k: int| 0 <= k < reversed@.len() ==> reversed@[k] == all[n - 1 - k],
                tree.wf(),
                tree.arena_len() == n - reversed@.len(),
                tree@ == all.subrange(0, n - reversed@.len()),
            decreases reversed@.len(),
        {
            let item = reversed.pop().unwrap();
            tree.push_node(item);
            assert(tree@ =~= all.subrange(0, n - reversed@.len()));
        }
        assert(tree@ =~= all);
        tree
    }

    /// The nodes' contents from left to right.
    pub fn into_vec(self) -> (r: Vec<TokenNode>)
        requires
            self.wf(),
        ensures
            r@ == self@,
    {
        let ghost all = self@;
        let mut tree = self;
        let mut out: Vec<TokenNode> = Vec::new();
        while tree.first.is_some()
            invariant
                tree.wf(),
                out@ + tree@ == all,
            decreases tree@.len(),
        {
            let f = tree.first.unwrap();
            proof {
                tree.lemma_position(0);
            }
            let ghost before = tree@;
            let node = tree.extract_node(f);
            out.push(node.unwrap());
            assert(out@ + tree@ =~= all) by {
                assert(tree@ =~= before.subrange(1, before.len() as int));
            }
        }
        assert(out@ + tree@ =~= out@);
        out
    }

    /// A fresh left-to-right traversal of the sequence.
    pub fn iter(&self) -> (r: TokenTreeIterator<'_>)
        requires
            self.wf(),
        ensures
            r.inv(),
            r.sequence() == self@,
            r.pos() == 0,
    {
        TokenTreeIterator::new(self)
    }
}

/// A forward traversal of a sequence's nodes.
pub struct TokenTreeIterator<'a> {
    tree: &'a TokenTree,
    current: Option<NodeId>,
    index: Ghost<int>,
}

impl<'a> TokenTreeIterator<'a> {
    /// The nodes being traversed.
    pub closed spec fn sequence(&self) -> Seq<TokenNode> {
        self.tree@
    }

    /// How many nodes have been handed out.
    pub closed spec fn pos(&self) -> int {
        self.index@
    }

    pub closed spec fn inv(&self) -> bool {
        &&& self.tree.wf()
        &&& 0 <= self.index@ <= self.tree.ids().len()
        &&& self.current == if self.index@ < self.tree.ids().len() {
            Some(self.tree.ids()[self.index@])
        } else {
            None
        }
    }

    pub fn new(tree: &'a TokenTree) -> (r: TokenTreeIterator<'a>)
        requires
            tree.wf(),
        ensures
            r.inv(),
            r.sequence() == tree@,
            r.pos() == 0,
    {
        TokenTreeIterator { tree, current: tree.first, index: Ghost(0) }
    }

    /// The next node, if any remains.
    pub fn next(&mut self) -> (r: Option<&'a TokenNode>)
        requires
            old(self).inv(),
        ensures
            final(self).inv(),
            final(self).sequence() == old(self).sequence(),
            old(self).pos() < old(self).sequence().len() ==> r == Some(
                &old(self).sequence()[old(self).pos()],
            ) && final(self).pos() == old(self).pos() + 1,
            old(self).pos() >= old(self).sequence().len() ==> r is None && final(self).pos()
                == old(self).pos(),
    {
        match self.current {
            Some(id) => {
                proof {
                    self.tree.lemma_position(self.index@);
                }
                let node = self.tree.node(id);
                self.current = self.tree.right_of(id);
                self.index = Ghost(self.index@ + 1);
                Some(node)
            },
            None => None,
        }
    }
}

impl TokenNode {
    pub open spec fn new_spec(item: Token) -> TokenNode {
        TokenNode { children: None, item, data_type: DataType::Void }
    }
}

/// Carving a run out of a sequence loses nothing: the remainder, with the run put back at
/// the place it was taken from, is the sequence it was carved from.
pub proof fn lemma_slice_put_back_restores(
    whole: Seq<TokenNode>,
    rest: Seq<TokenNode>,
    slice: Seq<TokenNode>,
    a: int,
    b: int,
)
    requires
        0 <= a <= b < whole.len(),
        rest == whole.subrange(0, a) + whole.subrange(b + 1, whole.len() as int),
        slice == whole.subrange(a, b + 1),
    ensures
        rest.subrange(0, a) + slice + rest.subrange(a, rest.len() as int) == whole,
        rest.len() == whole.len() - (b - a + 1),
{
    assert(rest.subrange(0, a) + slice + rest.subrange(a, rest.len() as int) =~= whole);
}

/// Two spaces per level of nesting.
pub open spec fn indentation(n: nat) -> Seq<char>
    decreases n,
{
    if n == 0 {
        Seq::empty()
    } else {
        indentation((n - 1) as nat) + "  "@
    }
}

pub open spec fn digit_char(d: int) -> char {
    if d == 0 {
        '0'
    } else if d == 1 {
        '1'
    } else if d == 2 {
        '2'
    } else if d == 3 {
        '3'
    } else if d == 4 {
        '4'
    } else if d == 5 {
        '5'
    } else if d == 6 {
        '6'
    } else if d == 7 {
        '7'
    } else if d == 8 {
        '8'
    } else {
        '9'
    }
}

/// Decimal digits of a non-negative integer.
pub open spec fn decimal(n: nat) -> Seq<char>
    decreases n,
{
    if n < 10 {
        seq![digit_char(n as int)]
    } else {
        decimal(n / 10) + seq![digit_char(n as int % 10)]
    }
}

/// Decimal form of an integer, with a leading `-` when negative.
pub open spec fn signed_decimal(n: int) -> Seq<char> {
    if n < 0 {
        "-"@ + decimal((-n) as nat)
    } else {
        decimal(n as nat)
    }
}

/// `name: type` for each parameter, separated by `", "`.
pub open spec fn param_list(ps: Seq<(String, DataType)>) -> Seq<char>
    decreases ps.len(),
{
    if ps.len() == 0 {
        Seq::empty()
    } else if ps.len() == 1 {
        ps[0].0@ + ": "@ + display_name(ps[0].1@)
    } else {
        param_list(ps.drop_last()) + ", "@ + ps.last().0@ + ": "@ + display_name(ps.last().1@)
    }
}

/// One line per parameter, `name: type`, at the given indentation.
pub open spec fn param_lines(ps: Seq<(String, DataType)>, indent: nat) -> Seq<char>
    decreases ps.len(),
{
    if ps.len() == 0 {
        Seq::empty()
    } else {
        param_lines(ps.drop_last(), indent) + indentation(indent) + ps.last().0@ + ": "@
            + display_name(ps.last().1@) + "\n"@
    }
}

/// The source texts of `nodes`, separated by `", "`.
pub open spec fn node_texts(nodes: Seq<TokenNode>) -> Seq<char>
    decreases nodes.len(),
{
    if nodes.len() == 0 {
        Seq::empty()
    } else if nodes.len() == 1 {
        nodes[0].item.value@
    } else {
        node_texts(nodes.drop_last()) + ", "@ + nodes.last().item.value@
    }
}

/// The line that describes a node: its text, priority and type.
pub open spec fn node_line(n: TokenNode, indent: nat) -> Seq<char> {
    indentation(indent) + "| "@ + n.item.value@ + " (p: "@ + signed_decimal(n.item.priority as int)
        + ") (dt: "@ + display_name(n.data_type@) + ")\n"@
}

/// One level deeper (the depth stops growing at the largest `usize`).
pub open spec fn deeper(indent: nat) -> nat {
    if indent < usize::MAX {
        indent + 1
    } else {
        indent
    }
}

/// The nodes reached from `cur` by following right links, at most `fuel` of them,
/// rendered at the given indentation.
pub closed spec fn render_walk(t: TokenTree, cur: Option<NodeId>, fuel: nat, indent: nat) -> Seq<char>
    decreases t, fuel,
{
    if fuel == 0 {
        Seq::empty()
    } else {
        match cur {
            None => Seq::empty(),
            Some(id) => if id < t.slots@.len() && id < t.links@.len() && t.slots@[id as int] is Some {
                render_node(t.slots@[id as int]->Some_0, indent) + render_walk(
                    t,
                    t.links@[id as int].right,
                    (fuel - 1) as nat,
                    indent,
                )
            } else {
                Seq::empty()
            },
        }
    }
}

/// Rendering of a whole sequence: each node, then its children one level deeper.
pub open spec fn render_tree(t: TokenTree, indent: nat) -> Seq<char>
    decreases t, 0nat,
{
    render_walk(t, t.first_link(), t.arena_len(), indent)
}

/// The first `j` nodes of `v`, rendered.
pub closed spec fn render_list(v: Seq<TokenNode>, j: nat, indent: nat) -> Seq<char>
    decreases v, j,
{
    if j == 0 || j > v.len() {
        Seq::empty()
    } else {
        render_list(v, (j - 1) as nat, indent) + render_node(v[j - 1], indent)
    }
}

/// The first `j` statements of `sts`, each followed by a separator line.
pub closed spec fn render_statements(sts: Seq<TokenTree>, j: nat, indent: nat) -> Seq<char>
    decreases sts, j,
{
    if j == 0 || j > sts.len() {
        Seq::empty()
    } else {
        render_statements(sts, (j - 1) as nat, indent) + render_walk(
            sts[j - 1],
            sts[j - 1].first,
            sts[j - 1].slots@.len(),
            indent,
        ) + indentation(indent) + "---\n"@
    }
}

/// A node's line, then its children.
pub closed spec fn render_node(n: TokenNode, indent: nat) -> Seq<char>
    decreases n, 0nat,
{
    node_line(n, indent) + match n.children {
        None => Seq::empty(),
        Some(ChildrenType::List(v)) => render_list(v@, v@.len(), deeper(indent)),
        Some(ChildrenType::Tree(t)) => render_walk(t, t.first, t.slots@.len(), deeper(indent)),
        Some(ChildrenType::Block(b)) => render_statements(
            b.statements@,
            b.statements@.len(),
            deeper(indent),
        ),
        Some(ChildrenType::FunctionParams(ps)) => param_lines(ps@, indent),
        Some(ChildrenType::Function { name, params, return_type, body }) => "fn "@ + name@ + " ("@
            + param_list(params@) + ") -> "@ + display_name(return_type@) + "\n"@ + render_statements(
            body.statements@,
            body.statements@.len(),
            deeper(indent),
        ),
        Some(ChildrenType::TypeCast { data_type, expr }) => "("@ + expr.item.value@ + ") as "@
            + display_name(data_type@),
        Some(ChildrenType::Call { callable, args }) => callable.item.value@ + "("@ + node_texts(args@)
            + ")"@,
    }
}

impl TokenTree {
    pub closed spec fn first_link(&self) -> Option<NodeId> {
        self.first
    }
}

fn append_indentation(out: &mut String, n: usize)
    ensures
        final(out)@ == old(out)@ + indentation(n as nat),
{
    let mut i: usize = 0;
    while i < n
        invariant
            i <= n,
            out@ == old(out)@ + indentation(i as nat),
        decreases n - i,
    {
        out.append("  ");
        i += 1;
        assert(out@ =~= old(out)@ + indentation(i as nat));
    }
}

fn digit_str(d: u64) -> (r: &'static str)
    requires
        d < 10,
    ensures
        r@ == seq![digit_char(d as int)],
{
    proof {
        reveal_strlit("0");
        reveal_strlit("1");
        reveal_strlit("2");
        reveal_strlit("3");
        reveal_strlit("4");
        reveal_strlit("5");
        reveal_strlit("6");
        reveal_strlit("7");
        reveal_strlit("8");
        reveal_strlit("9");
    }
    match d {
        0 => "0",
        1 => "1",
        2 => "2",
        3 => "3",
        4 => "4",
        5 => "5",
        6 => "6",
        7 => "7",
        8 => "8",
        _ => "9",
    }
}

fn append_decimal(out: &mut String, n: u64)
    ensures
        final(out)@ == old(out)@ + decimal(n as nat),
    decreases n,
{
    if n >= 10 {
        append_decimal(out, n / 10);
    }
    out.append(digit_str(n % 10));
    assert(out@ =~= old(out)@ + decimal(n as nat));
}

fn append_signed_decimal(out: &mut String, n: i32)
    ensures
        final(out)@ == old(out)@ + signed_decimal(n as int),
{
    if n < 0 {
        out.append("-");
        append_decimal(out, (-(n as i64)) as u64);
        assert(out@ =~= old(out)@ + signed_decimal(n as int));
    } else {
        append_decimal(out, n as u64);
    }
}

fn append_param_list(out: &mut String, ps: &Vec<(String, DataType)>)
    ensures
        final(out)@ == old(out)@ + param_list(ps@),
{
    let mut i: usize = 0;
    while i < ps.len()
        invariant
            i <= ps@.len(),
            out@ == old(out)@ + param_list(ps@.take(i as int)),
        decreases ps@.len() - i,
    {
        if i > 0 {
            out.append(", ");
        }
        out.append(ps[i].0.as_str());
        out.append(": ");
        let name = ps[i].1.name_leaked();
        out.append(name.as_str());
        proof {
            let next = ps@.take(i + 1);
            assert(next.drop_last() =~= ps@.take(i as int));
            if i == 0 {
                assert(param_list(ps@.take(0)) =~= Seq::<char>::empty());
            }
        }
        i += 1;
        assert(out@ =~= old(out)@ + param_list(ps@.take(i as int)));
    }
    assert(ps@.take(i as int) =~= ps@);
}

fn append_param_lines(out: &mut String, ps: &Vec<(String, DataType)>, indent: usize)
    ensures
        final(out)@ == old(out)@ + param_lines(ps@, indent as nat),
{
    let mut i: usize = 0;
    while i < ps.len()
        invariant
            i <= ps@.len(),
            out@ == old(out)@ + param_lines(ps@.take(i as int), indent as nat),
        decreases ps@.len() - i,
    {
        append_indentation(out, indent);
        out.append(ps[i].0.as_str());
        out.append(": ");
        let name = ps[i].1.name_leaked();
        out.append(name.as_str());
        out.append("\n");
        proof {
            assert(ps@.take(i + 1).drop_last() =~= ps@.take(i as int));
        }
        i += 1;
        assert(out@ =~= old(out)@ + param_lines(ps@.take(i as int), indent as nat));
    }
    assert(ps@.take(i as int) =~= ps@);
}

fn append_node_texts(out: &mut String, nodes: &Vec<TokenNode>)
    ensures
        final(out)@ == old(out)@ + node_texts(nodes@),
{
    let mut i: usize = 0;
    while i < nodes.len()
        invariant
            i <= nodes@.len(),
            out@ == old(out)@ + node_texts(nodes@.take(i as int)),
        decreases nodes@.len() - i,
    {
        if i > 0 {
            out.append(", ");
        }
        out.append(nodes[i].item.value.as_str());
        proof {
            assert(nodes@.take(i + 1).drop_last() =~= nodes@.take(i as int));
            if i == 0 {
                assert(node_texts(nodes@.take(0)) =~= Seq::<char>::empty());
            }
        }
        i += 1;
        assert(out@ =~= old(out)@ + node_texts(nodes@.take(i as int)));
    }
    assert(nodes@.take(i as int) =~= nodes@);
}

fn deeper_exec(indent: usize) -> (r: usize)
    ensures
        r == deeper(indent as nat),
{
    if indent < usize::MAX {
        indent + 1
    } else {
        indent
    }
}

fn append_node_line(out: &mut String, n: &TokenNode, indent: usize)
    ensures
        final(out)@ == old(out)@ + node_line(*n, indent as nat),
{
    append_indentation(out, indent);
    out.append("| ");
    out.append(n.item.value.as_str());
    out.append(" (p: ");
    append_signed_decimal(out, n.item.priority);
    out.append(") (dt: ");
    let name = n.data_type.name_leaked();
    out.append(name.as_str());
    out.append(")\n");
    assert(out@ =~= old(out)@ + node_line(*n, indent as nat));
}

fn render_walk_into(t: &TokenTree, indent: usize, out: &mut String)
    ensures
        final(out)@ == old(out)@ + render_walk(*t, t.first, t.slots@.len(), indent as nat),
    decreases *t,
{
    let ghost total = render_walk(*t, t.first, t.slots@.len(), indent as nat);
    let mut cur = t.first;
    let mut fuel = t.slots.len();
    let mut done = false;
    while fuel > 0 && !done
        invariant
            fuel <= t.slots@.len(),
            old(out)@ + total == out@ + render_walk(*t, cur, fuel as nat, indent as nat),
            done ==> render_walk(*t, cur, fuel as nat, indent as nat) == Seq::<char>::empty(),
        decreases fuel + if done {
            0int
        } else {
            1int
        },
    {
        match cur {
            None => {
                done = true;
            },
            Some(id) => {
                if id < t.slots.len() && id < t.links.len() {
                    match &t.slots[id] {
                        Some(node) => {
                            assert(decreases_to!(*t => t.slots));
                            assert(decreases_to!(t.slots => t.slots@));
                            assert(decreases_to!(t.slots@ => t.slots@[id as int]));
                            assert(decreases_to!(t.slots@[id as int] => t.slots@[id as int]->Some_0));
                            let ghost before = out@;
                            render_node_into(node, indent, out);
                            cur = t.links[id].right;
                            fuel -= 1;
                            assert(old(out)@ + total =~= out@ + render_walk(*t, cur, fuel as nat, indent as nat));
                        },
                        None => {
                            done = true;
                        },
                    }
                } else {
                    done = true;
                }
            },
        }
    }
    assert(out@ =~= old(out)@ + total);
}

fn render_list_into(v: &Vec<TokenNode>, indent: usize, out: &mut String)
    ensures
        final(out)@ == old(out)@ + render_list(v@, v@.len(), indent as nat),
    decreases *v,
{
    let mut j: usize = 0;
    while j < v.len()
        invariant
            j <= v@.len(),
            out@ == old(out)@ + render_list(v@, j as nat, indent as nat),
        decreases v@.len() - j,
    {
        assert(decreases_to!(*v => v@));
        assert(decreases_to!(v@ => v@[j as int]));
        render_node_into(&v[j], indent, out);
        j += 1;
        assert(out@ =~= old(out)@ + render_list(v@, j as nat, indent as nat));
    }
}

fn render_statements_into(sts: &Vec<TokenTree>, indent: usize, out: &mut String)
    ensures
        final(out)@ == old(out)@ + render_statements(sts@, sts@.len(), indent as nat),
    decreases *sts,
{
    let mut j: usize = 0;
    while j < sts.len()
        invariant
            j <= sts@.len(),
            out@ == old(out)@ + render_statements(sts@, j as nat, indent as nat),
        decreases sts@.len() - j,
    {
        assert(decreases_to!(*sts => sts@));
        assert(decreases_to!(sts@ => sts@[j as int]));
        render_walk_into(&sts[j], indent, out);
        append_indentation(out, indent);
        out.append("---\n");
        j += 1;
        assert(out@ =~= old(out)@ + render_statements(sts@, j as nat, indent as nat));
    }
}

fn render_node_into(n: &TokenNode, indent: usize, out: &mut String)
    ensures
        final(out)@ == old(out)@ + render_node(*n, indent as nat),
    decreases *n,
{
    append_node_line(out, n, indent);
    let ghost line = out@;
    let inner = deeper_exec(indent);
    match &n.children {
        None => {},
        Some(ChildrenType::List(v)) => {
            assert(decreases_to!(*n => n.children));
            assert(decreases_to!(n.children => n.children->Some_0));
            assert(decreases_to!(n.children->Some_0 => *v));
            render_list_into(v, inner, out);
        },
        Some(ChildrenType::Tree(t)) => {
            assert(decreases_to!(*n => n.children));
            assert(decreases_to!(n.children => n.children->Some_0));
            assert(decreases_to!(n.children->Some_0 => *t));
            render_walk_into(t, inner, out);
        },
        Some(ChildrenType::Block(b)) => {
            assert(decreases_to!(*n => n.children));
            assert(decreases_to!(n.children => n.children->Some_0));
            assert(decreases_to!(n.children->Some_0 => *b));
            assert(decreases_to!(*b => b.statements));
            render_statements_into(&b.statements, inner, out);
        },
        Some(ChildrenType::FunctionParams(ps)) => {
            append_param_lines(out, ps, indent);
        },
        Some(ChildrenType::Function { name, params, return_type, body }) => {
            out.append("fn ");
            out.append(name.as_str());
            out.append(" (");
            append_param_list(out, params);
            out.append(") -> ");
            let ret = return_type.name_leaked();
            out.append(ret.as_str());
            out.append("\n");
            assert(decreases_to!(*n => n.children));
            assert(decreases_to!(n.children => n.children->Some_0));
            assert(decreases_to!(n.children->Some_0 => *body));
            assert(decreases_to!(*body => body.statements));
            render_statements_into(&body.statements, inner, out);
        },
        Some(ChildrenType::TypeCast { data_type, expr }) => {
            out.append("(");
            out.append(expr.item.value.as_str());
            out.append(") as ");
            let name = data_type.name_leaked();
            out.append(name.as_str());
        },
        Some(ChildrenType::Call { callable, args }) => {
            out.append(callable.item.value.as_str());
            out.append("(");
            append_node_texts(out, args);
            out.append(")");
        },
    }
    assert(out@ =~= old(out)@ + render_node(*n, indent as nat));
}

impl TokenTree {
    /// A textual snapshot of the sequence: one line per node with its text, priority and
    /// type, and its children below it, one level deeper.
    pub fn debug_string(&self) -> (r: String)
        ensures
            r@ == render_tree(*self, 0),
    {
        let mut out = String::new();
        render_walk_into(self, 0, &mut out);
        assert(out@ =~= render_tree(*self, 0));
        out
    }
}

} // verus!
