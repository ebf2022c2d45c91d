//! A binary search tree keyed by `u64` that stores shared values.
use std::sync::Arc;
use vstd::prelude::*;
use vstd::string::*;
use crate::text::{decimal, push_char, push_decimal};

verus! {

/// Hands out another shared pointer to the value behind `a`.
///
/// Trusted: wraps `Arc::clone`, which returns a pointer to the same
/// allocation, so the value seen through it is the value behind `a`.
#[verifier::external_body]
fn share<T>(a: &Arc<T>) -> (res: Arc<T>)
    ensures
        *res == **a,
{
    Arc::clone(a)
}

/// The contents after inserting `data` under `key`: a key already
/// present keeps its value.
pub open spec fn inserted<T>(m: Map<u64, T>, key: u64, data: T) -> Map<u64, T> {
    if m.dom().contains(key) {
        m
    } else {
        m.insert(key, data)
    }
}

/// The contents after replacing the value under `key`: nothing changes
/// when the key is absent.
pub open spec fn replaced<T>(m: Map<u64, T>, key: u64, value: T) -> Map<u64, T> {
    if m.dom().contains(key) {
        m.insert(key, value)
    } else {
        m
    }
}

/// The contents after deleting `key`: a tree that holds that one key
/// alone keeps it.
pub open spec fn deleted<T>(m: Map<u64, T>, key: u64) -> Map<u64, T> {
    if m.dom() == set![key] {
        m
    } else {
        m.remove(key)
    }
}

/// The shape of a tree: its keys, and where each one stands.
pub enum KeyTree {
    Empty,
    Node(u64, Box<KeyTree>, Box<KeyTree>),
}

/// `key` stands somewhere in the shape `t`.
pub open spec fn shape_has(t: KeyTree, key: u64) -> bool
    decreases t,
{
    match t {
        KeyTree::Empty => false,
        KeyTree::Node(k, l, r) => k == key || shape_has(*l, key) || shape_has(*r, key),
    }
}

/// The shape after inserting `key`: a new leaf where the search for `key`
/// ends, or no change when the key is present.
pub open spec fn insert_shape(t: KeyTree, key: u64) -> KeyTree
    decreases t,
{
    match t {
        KeyTree::Empty => KeyTree::Node(key, Box::new(KeyTree::Empty), Box::new(KeyTree::Empty)),
        KeyTree::Node(k, l, r) => if key < k {
            KeyTree::Node(k, Box::new(insert_shape(*l, key)), r)
        } else if key > k {
            KeyTree::Node(k, l, Box::new(insert_shape(*r, key)))
        } else {
            t
        },
    }
}

/// The smallest key of a non-empty shape: the leftmost one.
pub open spec fn min_key(t: KeyTree) -> u64
    decreases t,
{
    match t {
        KeyTree::Empty => 0,
        KeyTree::Node(k, l, _) => if *l is Empty {
            k
        } else {
            min_key(*l)
        },
    }
}

/// The shape without its leftmost key, whose right subtree takes its
/// place.
pub open spec fn remove_min_shape(t: KeyTree) -> KeyTree
    decreases t,
{
    match t {
        KeyTree::Empty => KeyTree::Empty,
        KeyTree::Node(k, l, r) => if *l is Empty {
            *r
        } else {
            KeyTree::Node(k, Box::new(remove_min_shape(*l)), r)
        },
    }
}

/// The shape without its root: with two subtrees the root takes the
/// smallest key of the right one; with one, that subtree takes its place.
pub open spec fn remove_root_shape(t: KeyTree) -> KeyTree {
    match t {
        KeyTree::Empty => KeyTree::Empty,
        KeyTree::Node(k, l, r) => if *l is Node && *r is Node {
            KeyTree::Node(min_key(*r), l, Box::new(remove_min_shape(*r)))
        } else if *l is Node {
            *l
        } else {
            *r
        },
    }
}

/// The shape after removing the node that holds `key`, if any.
pub open spec fn delete_below(t: KeyTree, key: u64) -> KeyTree
    decreases t,
{
    match t {
        KeyTree::Empty => KeyTree::Empty,
        KeyTree::Node(k, l, r) => if key == k {
            remove_root_shape(t)
        } else if key < k {
            KeyTree::Node(k, Box::new(delete_below(*l, key)), r)
        } else {
            KeyTree::Node(k, l, Box::new(delete_below(*r, key)))
        },
    }
}

/// The shape after `delete_by_key(key)`: the root is removed only when it
/// has two subtrees; any other node is removed as by `delete_below`.
pub open spec fn delete_shape(t: KeyTree, key: u64) -> KeyTree {
    match t {
        KeyTree::Empty => KeyTree::Empty,
        KeyTree::Node(k, l, r) => if k == key {
            if *l is Node && *r is Node {
                remove_root_shape(t)
            } else {
                t
            }
        } else {
            delete_below(t, key)
        },
    }
}

/// The text `show` puts before the key of a node one level deeper.
pub open spec fn indent() -> Seq<char> {
    seq!['-', ' ', ' ', ' ']
}

/// The line printed for an empty tree.
pub open spec fn empty_tree_line() -> Seq<char> {
    "The current BST is empty"@
}

/// The lines of a preorder listing: each node's key in decimal after
/// `prefix`, then its left subtree and its right subtree listed with one
/// more `indent()`.
pub open spec fn preorder(t: KeyTree, prefix: Seq<char>) -> Seq<Seq<char>>
    decreases t,
{
    match t {
        KeyTree::Empty => Seq::empty(),
        KeyTree::Node(k, l, r) => seq![prefix + decimal(k as nat)] + preorder(*l, prefix + indent())
            + preorder(*r, prefix + indent()),
    }
}

/// What `show` prints for a tree of shape `t`, line by line.
pub open spec fn shown_lines(t: KeyTree) -> Seq<Seq<char>> {
    match t {
        KeyTree::Empty => seq![empty_tree_line()],
        KeyTree::Node(..) => preorder(t, Seq::empty()),
    }
}

/// A node of the tree: its key, the shared value stored under that key,
/// and its two subtrees.
pub struct NodeTree<T> {
    key: u64,
    data: Arc<T>,
    left: Option<Box<NodeTree<T>>>,
    right: Option<Box<NodeTree<T>>>,
}

impl<T> NodeTree<T> {
    /// The key/value pairs held by an optional subtree.
    pub closed spec fn optional_as_map(node_opt: Option<Box<NodeTree<T>>>) -> Map<u64, T>
        decreases node_opt,
    {
        match node_opt {
            None => Map::empty(),
            Some(node) => node.as_map(),
        }
    }

    /// The shape of an optional subtree.
    pub closed spec fn optional_shape(node_opt: Option<Box<NodeTree<T>>>) -> KeyTree
        decreases node_opt,
    {
        match node_opt {
            None => KeyTree::Empty,
            Some(node) => KeyTree::Node(
                node.key,
                Box::new(NodeTree::<T>::optional_shape(node.left)),
                Box::new(NodeTree::<T>::optional_shape(node.right)),
            ),
        }
    }

    /// The key/value pairs held by the subtree rooted at this node.
    pub closed spec fn as_map(self) -> Map<u64, T>
        decreases self,
    {
        NodeTree::<T>::optional_as_map(self.left).union_prefer_right(
            NodeTree::<T>::optional_as_map(self.right),
        ).insert(self.key, *self.data)
    }

    /// Search-tree order: every key on the left is smaller than the node's
    /// key, every key on the right is larger, and so on in both subtrees.
    pub closed spec fn well_formed(self) -> bool
        decreases self,
    {
        &&& forall|k: u64| #[trigger]
            NodeTree::<T>::optional_as_map(self.left).dom().contains(k) ==> k < self.key
        &&& forall|k: u64| #[trigger]
            NodeTree::<T>::optional_as_map(self.right).dom().contains(k) ==> k > self.key
        &&& match self.left {
            Some(l) => l.well_formed(),
            None => true,
        }
        &&& match self.right {
            Some(r) => r.well_formed(),
            None => true,
        }
    }

    /// Search-tree order of an optional subtree.
    pub closed spec fn optional_well_formed(node_opt: Option<Box<NodeTree<T>>>) -> bool {
        match node_opt {
            Some(n) => n.well_formed(),
            None => true,
        }
    }

    /// A node with no subtrees that holds `data` under `value`.
    pub fn new(value: u64, data: T) -> (node: Self)
        ensures
            node.well_formed(),
            node.as_map() == Map::<u64, T>::empty().insert(value, data),
            NodeTree::<T>::optional_shape(Some(Box::new(node))) == KeyTree::Node(
                value,
                Box::new(KeyTree::Empty),
                Box::new(KeyTree::Empty),
            ),
    {
        let node = NodeTree { key: value, data: Arc::new(data), left: None, right: None };
        assert(node.as_map() =~= Map::<u64, T>::empty().insert(value, data));
        assert(NodeTree::<T>::optional_shape(node.left) == KeyTree::Empty);
        assert(NodeTree::<T>::optional_shape(node.right) == KeyTree::Empty);
        node
    }
}

/// A binary search tree that maps `u64` keys to shared values.
pub struct BST<T> {
    root: Option<Box<NodeTree<T>>>,
}

impl<T> View for BST<T> {
    type V = Map<u64, T>;

    closed spec fn view(&self) -> Map<u64, T> {
        NodeTree::<T>::optional_as_map(self.root)
    }
}

impl<T> BST<T> {
    /// The shape of the tree.
    pub closed spec fn shape(&self) -> KeyTree {
        NodeTree::<T>::optional_shape(self.root)
    }

    /// The tree's search order holds, for every tree.
    #[verifier::type_invariant]
    pub closed spec fn well_formed(self) -> bool {
        NodeTree::<T>::optional_well_formed(self.root)
    }

    /// An empty tree.
    pub fn new() -> (tree: Self)
        ensures
            tree@ == Map::<u64, T>::empty(),
            tree.shape() == KeyTree::Empty,
    {
        BST { root: None }
    }

    /// Adds `data` under `key`. A key that is already present keeps the
    /// value it had, and `data` is dropped.
    pub fn insert(&mut self, key: u64, data: T)
        ensures
            final(self)@ == inserted(old(self)@, key, data),
            final(self).shape() == insert_shape(old(self).shape(), key),
    {
        proof {
            use_type_invariant(&*self);
        }
        let mut root = None;
        std::mem::swap(&mut root, &mut self.root);
        Self::impl_insert(&mut root, key, Arc::new(data));
        self.root = root;
    }

    fn impl_insert(node: &mut Option<Box<NodeTree<T>>>, key: u64, data: Arc<T>)
        requires
            NodeTree::<T>::optional_well_formed(*old(node)),
        ensures
            NodeTree::<T>::optional_well_formed(*final(node)),
            NodeTree::<T>::optional_as_map(*final(node)) == (if NodeTree::<T>::optional_as_map(
                *old(node),
            ).dom().contains(key) {
                NodeTree::<T>::optional_as_map(*old(node))
            } else {
                NodeTree::<T>::optional_as_map(*old(node)).insert(key, *data)
            }),
            NodeTree::<T>::optional_shape(*final(node)) == insert_shape(NodeTree::<T>::optional_shape(*old(node)), key),
        decreases *old(node),
    {
        match node.take() {
            None => {
                let leaf = NodeTree { key, data, left: None, right: None };
                assert(leaf.as_map() =~= Map::<u64, T>::empty().insert(key, *data));
                *node = Some(Box::new(leaf));
            },
            Some(mut current) => {
                if key < current.key {
                    Self::impl_insert(&mut current.left, key, data);
                    assert(!NodeTree::<T>::optional_as_map(current.right).dom().contains(key));
                } else if key > current.key {
                    Self::impl_insert(&mut current.right, key, data);
                    assert(!NodeTree::<T>::optional_as_map(current.left).dom().contains(key));
                }
                *node = Some(current);
            },
        }
    }
}


impl<T> BST<T> {
    /// Replaces the value stored under `key` with `value`: `Some(())` when
    /// the key was present, `None` (and no change) when it was not.
    pub fn replace_by_key(&mut self, key: u64, value: T) -> (res: Option<()>)
        ensures
            res is Some <==> old(self)@.dom().contains(key),
            final(self)@ == replaced(old(self)@, key, value),
            final(self).shape() == old(self).shape(),
    {
        proof {
            use_type_invariant(&*self);
        }
        let mut root = None;
        std::mem::swap(&mut root, &mut self.root);
        let found = Self::impl_replace(&mut root, key, Arc::new(value));
        self.root = root;
        if found {
            Some(())
        } else {
            None
        }
    }

    fn impl_replace(node: &mut Option<Box<NodeTree<T>>>, key: u64, data: Arc<T>) -> (found: bool)
        requires
            NodeTree::<T>::optional_well_formed(*old(node)),
        ensures
            NodeTree::<T>::optional_well_formed(*final(node)),
            found == NodeTree::<T>::optional_as_map(*old(node)).dom().contains(key),
            NodeTree::<T>::optional_as_map(*final(node)) == (if found {
                NodeTree::<T>::optional_as_map(*old(node)).insert(key, *data)
            } else {
                NodeTree::<T>::optional_as_map(*old(node))
            }),
            NodeTree::<T>::optional_shape(*final(node)) == NodeTree::<T>::optional_shape(*old(node)),
        decreases *old(node),
    {
        match node.take() {
            None => false,
            Some(mut current) => {
                let found;
                if key < current.key {
                    found = Self::impl_replace(&mut current.left, key, data);
                    assert(!NodeTree::<T>::optional_as_map(current.right).dom().contains(key));
                } else if key > current.key {
                    found = Self::impl_replace(&mut current.right, key, data);
                    assert(!NodeTree::<T>::optional_as_map(current.left).dom().contains(key));
                } else {
                    assert(!NodeTree::<T>::optional_as_map(current.left).dom().contains(key));
                    assert(!NodeTree::<T>::optional_as_map(current.right).dom().contains(key));
                    current.data = data;
                    found = true;
                }
                *node = Some(current);
                found
            },
        }
    }

    /// The value stored under `key`, shared with the tree, or `None` when
    /// the key is absent. The tree is left as it was.
    pub fn get_by_key(&mut self, key: u64) -> (res: Option<Arc<T>>)
        ensures
            *final(self) == *old(self),
            res is Some <==> old(self)@.dom().contains(key),
            res matches Some(v) ==> *v == old(self)@[key],
    {
        proof {
            use_type_invariant(&*self);
        }
        match Self::impl_get_by_key(&self.root, key) {
            Some(data) => Some(share(data)),
            None => None,
        }
    }

    fn impl_get_by_key<'a>(node: &'a Option<Box<NodeTree<T>>>, key: u64) -> (res: Option<&'a Arc<T>>)
        requires
            NodeTree::<T>::optional_well_formed(*node),
        ensures
            res is Some <==> NodeTree::<T>::optional_as_map(*node).dom().contains(key),
            res matches Some(v) ==> **v == NodeTree::<T>::optional_as_map(*node)[key],
        decreases *node,
    {
        match node {
            None => None,
            Some(current) => {
                if key < current.key {
                    assert(!NodeTree::<T>::optional_as_map(current.right).dom().contains(key));
                    Self::impl_get_by_key(&current.left, key)
                } else if key > current.key {
                    assert(!NodeTree::<T>::optional_as_map(current.left).dom().contains(key));
                    Self::impl_get_by_key(&current.right, key)
                } else {
                    Some(&current.data)
                }
            },
        }
    }

    /// Empties the tree.
    pub fn clear(&mut self)
        ensures
            final(self)@ == Map::<u64, T>::empty(),
            final(self).shape() == KeyTree::Empty,
    {
        self.root = None
    }
}


impl<T> BST<T> {
    /// The root holds `key` and exactly one subtree: the one shape on which
    /// deleting `key` cannot be carried out.
    pub closed spec fn deletes_root_with_one_child(&self, key: u64) -> bool {
        match self.root {
            Some(r) => r.key == key && (r.left is Some) != (r.right is Some),
            None => false,
        }
    }

    /// Whether deleting `key` is refused: the root holds `key` and has
    /// exactly one subtree.
    pub fn deletion_blocked(&self, key: u64) -> (blocked: bool)
        ensures
            blocked == self.deletes_root_with_one_child(key),
    {
        match &self.root {
            Some(r) => r.key == key && (r.left.is_some() != r.right.is_some()),
            None => false,
        }
    }

    /// Removes `key` and its value. A missing key changes nothing, and so
    /// does the key of a tree that holds that one key alone: the root is
    /// only ever emptied of its subtrees, never removed itself. A node
    /// with two subtrees takes the smallest key of its right subtree.
    pub fn delete_by_key(&mut self, key: u64)
        requires
            !old(self).deletes_root_with_one_child(key),
        ensures
            final(self)@ == deleted(old(self)@, key),
            final(self).shape() == delete_shape(old(self).shape(), key),
    {
        proof {
            use_type_invariant(&*self);
        }
        let root_matches = match &self.root {
            Some(r) => r.key == key,
            None => false,
        };
        if root_matches {
            let two_children = match &self.root {
                Some(r) => r.left.is_some() && r.right.is_some(),
                None => false,
            };
            proof {
                let r = self.root.unwrap();
                assert(self.shape() == KeyTree::Node(
                    r.key,
                    Box::new(NodeTree::<T>::optional_shape(r.left)),
                    Box::new(NodeTree::<T>::optional_shape(r.right)),
                ));
                assert(two_children == (NodeTree::<T>::optional_shape(r.left) is Node && NodeTree::<T>::optional_shape(r.right) is Node));
                assert(!NodeTree::<T>::optional_as_map(r.left).dom().contains(key));
                assert(!NodeTree::<T>::optional_as_map(r.right).dom().contains(key));
                if !two_children {
                    assert(NodeTree::<T>::optional_as_map(r.left) =~= Map::empty());
                    assert(NodeTree::<T>::optional_as_map(r.right) =~= Map::empty());
                    assert(self@.dom() =~= set![key]);
                } else {
                    assert(NodeTree::<T>::optional_as_map(r.right).dom().contains(
                        r.right.unwrap().key,
                    ));
                    assert(self@.dom().contains(r.right.unwrap().key));
                    assert(self@.dom() !== set![key]);
                }
            }
            if two_children {
                let mut root = None;
                std::mem::swap(&mut root, &mut self.root);
                Self::delete_node(&mut root);
                self.root = root;
            }
        } else {
            proof {
                if self.root is Some {
                    let r = self.root->0;
                    {
                        assert(self@.dom().contains(r.key));
                        assert(!set![key].contains(r.key));
                    }
                } else {
                    assert(!self@.dom().contains(key));
                    assert(set![key].contains(key));
                }
            }
            let mut root = None;
            std::mem::swap(&mut root, &mut self.root);
            Self::find_and_delete(&mut root, key);
            self.root = root;
        }
    }

    /// Deletes `key` below the root, which is known not to hold it.
    fn find_and_delete(node: &mut Option<Box<NodeTree<T>>>, key: u64)
        requires
            NodeTree::<T>::optional_well_formed(*old(node)),
            *old(node) matches Some(r) ==> r.key != key,
        ensures
            NodeTree::<T>::optional_well_formed(*final(node)),
            NodeTree::<T>::optional_as_map(*final(node)) == NodeTree::<T>::optional_as_map(
                *old(node),
            ).remove(key),
            NodeTree::<T>::optional_shape(*final(node)) == delete_below(NodeTree::<T>::optional_shape(*old(node)), key),
    {
        match node.take() {
            None => {
                assert(Map::<u64, T>::empty().remove(key) =~= Map::<u64, T>::empty());
            },
            Some(mut current) => {
                if key < current.key {
                    assert(!NodeTree::<T>::optional_as_map(current.right).dom().contains(key));
                    Self::impl_find_and_delete(&mut current.left, key);
                } else {
                    assert(!NodeTree::<T>::optional_as_map(current.left).dom().contains(key));
                    Self::impl_find_and_delete(&mut current.right, key);
                }
                *node = Some(current);
                assert(NodeTree::<T>::optional_as_map(*node) =~= NodeTree::<T>::optional_as_map(
                    *old(node),
                ).remove(key));
            },
        }
    }

    fn impl_find_and_delete(node: &mut Option<Box<NodeTree<T>>>, key: u64)
        requires
            NodeTree::<T>::optional_well_formed(*old(node)),
        ensures
            NodeTree::<T>::optional_well_formed(*final(node)),
            NodeTree::<T>::optional_as_map(*final(node)) == NodeTree::<T>::optional_as_map(
                *old(node),
            ).remove(key),
            NodeTree::<T>::optional_shape(*final(node)) == delete_below(NodeTree::<T>::optional_shape(*old(node)), key),
        decreases *old(node),
    {
        let here = match &*node {
            Some(current) => current.key == key,
            None => false,
        };
        if here {
            Self::delete_node(node);
            return ;
        }
        match node.take() {
            None => {
                assert(Map::<u64, T>::empty().remove(key) =~= Map::<u64, T>::empty());
            },
            Some(mut current) => {
                if key < current.key {
                    assert(!NodeTree::<T>::optional_as_map(current.right).dom().contains(key));
                    Self::impl_find_and_delete(&mut current.left, key);
                } else {
                    assert(!NodeTree::<T>::optional_as_map(current.left).dom().contains(key));
                    Self::impl_find_and_delete(&mut current.right, key);
                }
                *node = Some(current);
                assert(NodeTree::<T>::optional_as_map(*node) =~= NodeTree::<T>::optional_as_map(
                    *old(node),
                ).remove(key));
            },
        }
    }

    /// Removes the node at the root of this subtree: a node with two
    /// subtrees takes the smallest key of its right subtree, a node with
    /// one subtree is replaced by it, and a leaf disappears.
    fn delete_node(node: &mut Option<Box<NodeTree<T>>>)
        requires
            *old(node) is Some,
            NodeTree::<T>::optional_well_formed(*old(node)),
        ensures
            NodeTree::<T>::optional_well_formed(*final(node)),
            NodeTree::<T>::optional_as_map(*final(node)) == NodeTree::<T>::optional_as_map(
                *old(node),
            ).remove(old(node).unwrap().key),
            NodeTree::<T>::optional_shape(*final(node)) == remove_root_shape(NodeTree::<T>::optional_shape(*old(node))),
    {
        let mut current = node.take().unwrap();
        let ghost key = current.key;
        assert(!NodeTree::<T>::optional_as_map(current.left).dom().contains(key));
        assert(!NodeTree::<T>::optional_as_map(current.right).dom().contains(key));
        if current.left.is_some() && current.right.is_some() {
            let ghost old_right = NodeTree::<T>::optional_as_map(current.right);
            let ghost old_left_shape = NodeTree::<T>::optional_shape(current.left);
            let ghost old_right_shape = NodeTree::<T>::optional_shape(current.right);
            let (min_key, min_data) = Self::get_min(&mut current.right);
            current.key = min_key;
            current.data = min_data;
            assert(NodeTree::<T>::optional_shape(*old(node)) == KeyTree::Node(key, Box::new(old_left_shape), Box::new(old_right_shape)));
            assert(old_left_shape is Node && old_right_shape is Node);
            proof {
                assert forall|k: u64| #[trigger]
                    NodeTree::<T>::optional_as_map(current.left).dom().contains(k) implies k
                    < current.key by {
                    assert(k < key);
                    assert(old_right.dom().contains(min_key));
                }
            }
            *node = Some(current);
            assert(NodeTree::<T>::optional_as_map(*node) =~= NodeTree::<T>::optional_as_map(
                *old(node),
            ).remove(key));
        } else if current.left.is_some() {
            *node = current.left;
            assert(NodeTree::<T>::optional_as_map(current.right) =~= Map::empty());
            assert(NodeTree::<T>::optional_as_map(*node) =~= NodeTree::<T>::optional_as_map(
                *old(node),
            ).remove(key));
        } else {
            *node = current.right;
            assert(NodeTree::<T>::optional_as_map(current.left) =~= Map::empty());
            assert(NodeTree::<T>::optional_as_map(*node) =~= NodeTree::<T>::optional_as_map(
                *old(node),
            ).remove(key));
        }
    }

    /// Removes the smallest key of a non-empty subtree and hands back that
    /// key and its value.
    fn get_min(node: &mut Option<Box<NodeTree<T>>>) -> (min: (u64, Arc<T>))
        requires
            *old(node) is Some,
            NodeTree::<T>::optional_well_formed(*old(node)),
        ensures
            NodeTree::<T>::optional_well_formed(*final(node)),
            NodeTree::<T>::optional_as_map(*old(node)).dom().contains(min.0),
            NodeTree::<T>::optional_as_map(*old(node))[min.0] == *min.1,
            NodeTree::<T>::optional_as_map(*final(node)) == NodeTree::<T>::optional_as_map(
                *old(node),
            ).remove(min.0),
            forall|k: u64| #[trigger]
                NodeTree::<T>::optional_as_map(*old(node)).dom().contains(k) ==> min.0 <= k,
            min.0 == min_key(NodeTree::<T>::optional_shape(*old(node))),
            NodeTree::<T>::optional_shape(*final(node)) == remove_min_shape(NodeTree::<T>::optional_shape(*old(node))),
        decreases *old(node),
    {
        let mut current = node.take().unwrap();
        if current.left.is_none() {
            *node = current.right;
            assert(NodeTree::<T>::optional_as_map(current.left) =~= Map::empty());
            assert(!NodeTree::<T>::optional_as_map(current.right).dom().contains(current.key));
            assert(NodeTree::<T>::optional_as_map(*node) =~= NodeTree::<T>::optional_as_map(
                *old(node),
            ).remove(current.key));
            (current.key, current.data)
        } else {
            let (min_key, min_data) = Self::get_min(&mut current.left);
            assert(!NodeTree::<T>::optional_as_map(current.right).dom().contains(min_key));
            *node = Some(current);
            assert(NodeTree::<T>::optional_as_map(*node) =~= NodeTree::<T>::optional_as_map(
                *old(node),
            ).remove(min_key));
            (min_key, min_data)
        }
    }
}


impl<T> NodeTree<T> {
    /// The lines of a preorder listing of an optional subtree: each node's
    /// key in decimal after `prefix`, its left subtree and then its right
    /// subtree listed with one more `indent()`.
    pub closed spec fn preorder_lines(node_opt: Option<Box<NodeTree<T>>>, prefix: Seq<char>) -> Seq<
        Seq<char>,
    > {
        preorder(NodeTree::<T>::optional_shape(node_opt), prefix)
    }
}

impl<T> BST<T> {
    /// What `show` prints, line by line.
    pub open spec fn shown(&self) -> Seq<Seq<char>> {
        shown_lines(self.shape())
    }

    /// The lines that show the tree in preorder: every key in decimal,
    /// indented by one `indent()` per level, or a single line saying that
    /// the tree is empty.
    pub fn show_lines(&self) -> (lines: Vec<String>)
        ensures
            lines@.len() == self.shown().len(),
            forall|i: int| 0 <= i < lines@.len() ==> #[trigger] lines@[i]@ == self.shown()[i],
    {
        let mut lines: Vec<String> = Vec::new();
        match &self.root {
            None => {
                let line = String::from_str("The current BST is empty");
                proof {
                    reveal_strlit("The current BST is empty");
                }
                lines.push(line);
            },
            Some(_) => {
                let prefix = String::new();
                Self::impl_show(&self.root, &prefix, &mut lines);
                assert forall|i: int| 0 <= i < lines@.len() implies #[trigger] lines@[i]@
                    == self.shown()[i] by {
                    assert(lines@[0 + i] == lines@[i]);
                }
            },
        }
        lines
    }

    fn impl_show(node: &Option<Box<NodeTree<T>>>, prefix: &String, out: &mut Vec<String>)
        ensures
            final(out)@.len() == old(out)@.len() + NodeTree::<T>::preorder_lines(
                *node,
                prefix@,
            ).len(),
            forall|i: int| 0 <= i < old(out)@.len() ==> #[trigger] final(out)@[i] == old(out)@[i],
            forall|j: int|
                0 <= j < NodeTree::<T>::preorder_lines(*node, prefix@).len()
                    ==> #[trigger] final(out)@[old(out)@.len() + j]@
                    == NodeTree::<T>::preorder_lines(*node, prefix@)[j],
        decreases *node,
    {
        match node {
            None => {},
            Some(current) => {
                let mut line = prefix.clone();
                push_decimal(&mut line, current.key);
                out.push(line);
                let mut deeper = prefix.clone();
                push_char(&mut deeper, '-');
                push_char(&mut deeper, ' ');
                push_char(&mut deeper, ' ');
                push_char(&mut deeper, ' ');
                assert(deeper@ =~= prefix@ + indent());
                let ghost mid = out@;
                Self::impl_show(&current.left, &deeper, out);
                let ghost mid2 = out@;
                Self::impl_show(&current.right, &deeper, out);
                proof {
                    let l = NodeTree::<T>::preorder_lines(current.left, deeper@);
                    let r = NodeTree::<T>::preorder_lines(current.right, deeper@);
                    let all = NodeTree::<T>::preorder_lines(*node, prefix@);
                    assert(all =~= seq![prefix@ + decimal(current.key as nat)] + l + r);
                    let base = old(out)@.len() as int;
                    assert forall|j: int| 0 <= j < all.len() implies #[trigger] out@[base + j]@
                        == all[j] by {
                        if j == 0 {
                            assert(mid2[base] == mid[base]);
                        } else if j < 1 + l.len() {
                            assert(out@[base + j] == mid2[base + j]);
                            assert(mid2[mid.len() + (j - 1)]@ == l[j - 1]);
                        } else {
                            assert(out@[mid2.len() + (j - 1 - l.len())]@ == r[j - 1 - l.len()]);
                        }
                    }
                }
            },
        }
    }
}


/// A read gives back what an insert stored: after inserting `data` under
/// `key`, the key is present and holds `data`, or its old value when it
/// was already present.
pub proof fn law_get_after_insert<T>(m: Map<u64, T>, key: u64, data: T)
    ensures
        inserted(m, key, data).dom().contains(key),
        inserted(m, key, data)[key] == (if m.dom().contains(key) {
            m[key]
        } else {
            data
        }),
{
}

/// An insert leaves every other key, and its value, as it was.
pub proof fn law_insert_keeps_others<T>(m: Map<u64, T>, key: u64, data: T, other: u64)
    requires
        other != key,
    ensures
        inserted(m, key, data).dom().contains(other) == m.dom().contains(other),
        m.dom().contains(other) ==> inserted(m, key, data)[other] == m[other],
{
}

/// A read gives back what a replace stored, and a replace adds no key:
/// after replacing the value under a present `key`, it holds `value`.
pub proof fn law_get_after_replace<T>(m: Map<u64, T>, key: u64, value: T)
    ensures
        replaced(m, key, value).dom() == m.dom(),
        m.dom().contains(key) ==> replaced(m, key, value)[key] == value,
{
    assert(replaced(m, key, value).dom() =~= m.dom());
}

/// A deleted key is gone, unless it was the only key of the tree.
pub proof fn law_get_after_delete<T>(m: Map<u64, T>, key: u64)
    requires
        m.dom() != set![key],
    ensures
        !deleted(m, key).dom().contains(key),
{
}

/// A delete leaves every other key, and its value, as it was.
pub proof fn law_delete_keeps_others<T>(m: Map<u64, T>, key: u64, other: u64)
    requires
        other != key,
    ensures
        deleted(m, key).dom().contains(other) == m.dom().contains(other),
        m.dom().contains(other) ==> deleted(m, key)[other] == m[other],
{
}

/// Deleting a key that was just inserted into a non-empty tree that did
/// not hold it gives back the tree's former contents.
pub proof fn law_delete_undoes_insert<T>(m: Map<u64, T>, key: u64, data: T)
    requires
        !m.dom().contains(key),
        m.dom() != Set::<u64>::empty(),
    ensures
        deleted(inserted(m, key, data), key) == m,
{
    assert(exists|j: u64| m.dom().contains(j)) by {
        if forall|j: u64| !m.dom().contains(j) {
            assert(m.dom() =~= Set::<u64>::empty());
        }
    }
    let witness = choose|j: u64| m.dom().contains(j);
    let grown = m.insert(key, data);
    assert(grown.dom().contains(witness));
    assert(witness != key);
    assert(!set![key].contains(witness));
    assert(grown.dom() != set![key]);
    assert(grown.remove(key) =~= m);
}

impl<T> NodeTree<T> {
    proof fn lemma_preorder_len(node_opt: Option<Box<NodeTree<T>>>, prefix: Seq<char>)
        requires
            NodeTree::<T>::optional_well_formed(node_opt),
        ensures
            NodeTree::<T>::optional_as_map(node_opt).dom().finite(),
            NodeTree::<T>::preorder_lines(node_opt, prefix).len() == NodeTree::<T>::optional_as_map(
                node_opt,
            ).dom().len(),
        decreases node_opt,
    {
        match node_opt {
            None => {
                assert(NodeTree::<T>::optional_as_map(node_opt).dom() =~= Set::<u64>::empty());
            },
            Some(n) => {
                NodeTree::<T>::lemma_preorder_len(n.left, prefix + indent());
                NodeTree::<T>::lemma_preorder_len(n.right, prefix + indent());
                let l = NodeTree::<T>::optional_as_map(n.left).dom();
                let r = NodeTree::<T>::optional_as_map(n.right).dom();
                let both = NodeTree::<T>::optional_as_map(n.left).union_prefer_right(
                    NodeTree::<T>::optional_as_map(n.right),
                );
                assert(both.dom() =~= l + r);
                assert(l.disjoint(r)) by {
                    assert forall|k: u64| l.contains(k) implies !r.contains(k) by {
                        assert(k < n.key);
                    }
                }
                vstd::set_lib::lemma_set_disjoint_lens(l, r);
                assert(!both.dom().contains(n.key)) by {
                    if l.contains(n.key) {
                        assert(n.key < n.key);
                    }
                    if r.contains(n.key) {
                        assert(n.key > n.key);
                    }
                }
                assert(NodeTree::<T>::optional_as_map(node_opt).dom() =~= both.dom().insert(n.key));
                vstd::set::axiom_set_insert_len(both.dom(), n.key);
            },
        }
    }
}

/// `show` prints one line per key, and a single line for an empty tree.
pub proof fn law_show_one_line_per_key<T>(t: BST<T>)
    requires
        t.well_formed(),
    ensures
        t@.dom().finite(),
        t@.dom().len() == 0 ==> t.shown() == seq![empty_tree_line()],
        t@.dom().len() > 0 ==> t.shown().len() == t@.dom().len(),
{
    NodeTree::<T>::lemma_preorder_len(t.root, Seq::empty());
    if t.root is Some {
        let r = t.root->0;
        assert(t@.dom().contains(r.key));
    }
}


impl<T> NodeTree<T> {
    proof fn lemma_shape_keys(node_opt: Option<Box<NodeTree<T>>>, key: u64)
        ensures
            NodeTree::<T>::optional_as_map(node_opt).dom().contains(key) == shape_has(
                NodeTree::<T>::optional_shape(node_opt),
                key,
            ),
        decreases node_opt,
    {
        if let Some(n) = node_opt {
            NodeTree::<T>::lemma_shape_keys(n.left, key);
            NodeTree::<T>::lemma_shape_keys(n.right, key);
        }
    }
}

/// The shape and the contents describe the same tree: a key stands in the
/// shape exactly when the tree holds a value under it.
pub proof fn law_shape_holds_the_keys<T>(t: BST<T>, key: u64)
    ensures
        t@.dom().contains(key) == shape_has(t.shape(), key),
{
    NodeTree::<T>::lemma_shape_keys(t.root, key);
}


/// `line` begins with `prefix`.
pub open spec fn starts_with(line: Seq<char>, prefix: Seq<char>) -> bool {
    prefix.len() <= line.len() && line.subrange(0, prefix.len() as int) == prefix
}

proof fn lemma_preorder_prefix(t: KeyTree, p: Seq<char>)
    ensures
        forall|i: int| 0 <= i < preorder(t, p).len() ==> starts_with(#[trigger] preorder(t, p)[i], p),
    decreases t,
{
    if let KeyTree::Node(k, l, r) = t {
        let q = p + indent();
        lemma_preorder_prefix(*l, q);
        lemma_preorder_prefix(*r, q);
        let lp = preorder(*l, q);
        let rp = preorder(*r, q);
        assert(preorder(t, p) == seq![p + decimal(k as nat)] + lp + rp);
        assert forall|i: int| 0 <= i < preorder(t, p).len() implies starts_with(#[trigger] preorder(t, p)[i], p) by {
            let line = preorder(t, p)[i];
            if i == 0 {
                assert(line.subrange(0, p.len() as int) =~= p);
            } else {
                if i < 1 + lp.len() {
                    assert(line == lp[i - 1]);
                    assert(starts_with(lp[i - 1], q));
                } else {
                    assert(line == rp[i - 1 - lp.len()]);
                    assert(starts_with(rp[i - 1 - lp.len()], q));
                }
                assert(line.subrange(0, q.len() as int) == q);
                assert(line.subrange(0, p.len() as int) =~= line.subrange(0, q.len() as int).subrange(0, p.len() as int));
                assert(q.subrange(0, p.len() as int) =~= p);
            }
        }
    }
}

/// Every key is listed one indent deeper than its parent: the root's line
/// is its key after `prefix`, and every line of its left and right
/// subtrees, whichever of them is empty, begins with `prefix` and one
/// more `indent()`.
pub proof fn law_children_indented_once_more(k: u64, l: KeyTree, r: KeyTree, prefix: Seq<char>)
    ensures
        ({
            let lines = preorder(KeyTree::Node(k, Box::new(l), Box::new(r)), prefix);
            &&& lines.len() >= 1
            &&& lines[0] == prefix + decimal(k as nat)
            &&& forall|i: int| 1 <= i < lines.len() ==> starts_with(#[trigger] lines[i], prefix + indent())
        }),
{
    let q = prefix + indent();
    lemma_preorder_prefix(l, q);
    lemma_preorder_prefix(r, q);
    let lp = preorder(l, q);
    let rp = preorder(r, q);
    let lines = preorder(KeyTree::Node(k, Box::new(l), Box::new(r)), prefix);
    assert(lines == seq![prefix + decimal(k as nat)] + lp + rp);
    assert forall|i: int| 1 <= i < lines.len() implies starts_with(#[trigger] lines[i], q) by {
        if i < 1 + lp.len() {
            assert(lines[i] == lp[i - 1]);
        } else {
            assert(lines[i] == rp[i - 1 - lp.len()]);
        }
    }
}

} // verus!
