//! The assembly tree: a pool of nodes with a distinguished root.

use std::rc::Rc;

use vstd::prelude::*;

use crate::structure::shape::Material;
use crate::structure::shape::Shape;

verus! {

/// A unique identifier for a node in a tree: its index in the node pool.
pub type NodeId = usize;

/// A single node in the assembly structure of the CAD data.
///
/// A node owns an optional transform, an optional material, zero or more
/// shape references and the ids of its children.  The transform is a 4x4
/// matrix in column-major order; each entry holds the raw bit pattern of its
/// 32-bit value.
pub struct Node {
    id: NodeId,
    label: String,
    transform: Option<[u32; 16]>,
    material: Option<Rc<Material>>,
    shapes: Vec<Rc<Shape>>,
    children: Vec<NodeId>,
}

impl Node {
    /// The id of the node.
    pub closed spec fn spec_id(&self) -> NodeId {
        self.id
    }

    /// The label of the node.
    pub closed spec fn spec_label(&self) -> Seq<char> {
        self.label@
    }

    /// The transform of the node, if any.
    pub closed spec fn spec_transform(&self) -> Option<[u32; 16]> {
        self.transform
    }

    /// The material of the node, if any.
    pub closed spec fn spec_material(&self) -> Option<Material> {
        match self.material {
            Some(ref m) => Some(**m),
            None => None,
        }
    }

    /// The shapes attached to the node.
    pub closed spec fn spec_shapes(&self) -> Seq<Rc<Shape>> {
        self.shapes@
    }

    /// The ids of the children of the node.
    pub closed spec fn spec_children(&self) -> Seq<NodeId> {
        self.children@
    }

    /// Creates a new node with the given label and id.
    pub fn new(label: String, id: NodeId) -> (r: Self)
        ensures
            r.spec_id() == id,
            r.spec_label() == label@,
            r.spec_transform() is None,
            r.spec_material() is None,
            r.spec_shapes() == Seq::<Rc<Shape>>::empty(),
            r.spec_children() == Seq::<NodeId>::empty(),
    {
        let r = Self {
            id,
            label,
            transform: None,
            material: None,
            shapes: Vec::new(),
            children: Vec::new(),
        };
        proof {
            assert(r.spec_shapes() =~= Seq::<Rc<Shape>>::empty());
            assert(r.spec_children() =~= Seq::<NodeId>::empty());
        }
        r
    }

    /// Returns the id of the node.
    pub fn get_id(&self) -> (r: NodeId)
        ensures
            r == self.spec_id(),
    {
        self.id
    }

    /// Returns true if the node is a leaf node.
    pub fn is_leaf(&self) -> (r: bool)
        ensures
            r == (self.spec_children().len() == 0),
    {
        self.children.len() == 0
    }

    /// Returns a reference onto the label of the node.
    pub fn get_label(&self) -> (r: &String)
        ensures
            r@ == self.spec_label(),
    {
        &self.label
    }

    /// Adds the given node id as a child.
    pub fn add_child(&mut self, child: NodeId)
        ensures
            final(self).spec_children() == old(self).spec_children().push(child),
            final(self).spec_id() == old(self).spec_id(),
            final(self).spec_label() == old(self).spec_label(),
            final(self).spec_transform() == old(self).spec_transform(),
            final(self).spec_material() == old(self).spec_material(),
            final(self).spec_shapes() == old(self).spec_shapes(),
    {
        self.children.push(child);
    }

    /// Returns a reference onto the ids of the children of this node.
    pub fn get_children_node_ids(&self) -> (r: &Vec<NodeId>)
        ensures
            r@ == self.spec_children(),
    {
        &self.children
    }

    /// Attaches a shape to the current node.
    pub fn attach_shape(&mut self, shape: Rc<Shape>)
        ensures
            final(self).spec_shapes() == old(self).spec_shapes().push(shape),
            final(self).spec_id() == old(self).spec_id(),
            final(self).spec_label() == old(self).spec_label(),
            final(self).spec_transform() == old(self).spec_transform(),
            final(self).spec_material() == old(self).spec_material(),
            final(self).spec_children() == old(self).spec_children(),
    {
        self.shapes.push(shape);
    }

    /// Returns a reference onto the internally stored shapes.
    pub fn get_shapes(&self) -> (r: &Vec<Rc<Shape>>)
        ensures
            r@ == self.spec_shapes(),
    {
        &self.shapes
    }

    /// Sets the given transformation for the node.
    pub fn set_transform(&mut self, transform: [u32; 16])
        ensures
            final(self).spec_transform() == Some(transform),
            final(self).spec_id() == old(self).spec_id(),
            final(self).spec_label() == old(self).spec_label(),
            final(self).spec_material() == old(self).spec_material(),
            final(self).spec_shapes() == old(self).spec_shapes(),
            final(self).spec_children() == old(self).spec_children(),
    {
        self.transform = Some(transform);
    }

    /// Returns the local transformation of the node.
    pub fn get_transform(&self) -> (r: Option<&[u32; 16]>)
        ensures
            match r {
                Some(t) => self.spec_transform() == Some(*t),
                None => self.spec_transform() is None,
            },
    {
        self.transform.as_ref()
    }

    /// Sets the given material for the node.
    pub fn set_material(&mut self, material: Rc<Material>)
        ensures
            final(self).spec_material() == Some(*material),
            final(self).spec_id() == old(self).spec_id(),
            final(self).spec_label() == old(self).spec_label(),
            final(self).spec_transform() == old(self).spec_transform(),
            final(self).spec_shapes() == old(self).spec_shapes(),
            final(self).spec_children() == old(self).spec_children(),
    {
        self.material = Some(material);
    }

    /// Returns the material of the node, if any.
    pub fn get_material(&self) -> (r: Option<&Rc<Material>>)
        ensures
            match r {
                Some(m) => self.spec_material() == Some(**m),
                None => self.spec_material() is None,
            },
    {
        self.material.as_ref()
    }
}

/// A tree data-structure that holds a collection of nodes in one pool.
pub struct Tree {
    /// The pool of nodes in the tree.
    node_pool: Vec<Node>,
    /// The id of the root node.
    root_node_id: Option<NodeId>,
}

impl Tree {
    /// The pool of nodes.
    pub closed spec fn spec_nodes(&self) -> Seq<Node> {
        self.node_pool@
    }

    /// The id of the root node, if a node exists.
    pub closed spec fn spec_root_node_id(&self) -> Option<NodeId> {
        self.root_node_id
    }

    /// The number of nodes in the tree.
    pub open spec fn spec_len(&self) -> nat {
        self.spec_nodes().len()
    }

    /// Creates a new empty tree.
    pub fn new() -> (r: Self)
        ensures
            r.spec_nodes() == Seq::<Node>::empty(),
            r.spec_root_node_id() is None,
    {
        let r = Self { node_pool: Vec::new(), root_node_id: None };
        proof {
            assert(r.spec_nodes() =~= Seq::<Node>::empty());
        }
        r
    }

    /// Sets the root node of the tree, overwriting the current root.
    pub fn set_root_node_id(&mut self, node_id: NodeId)
        requires
            node_id < old(self).spec_len(),
        ensures
            final(self).spec_nodes() == old(self).spec_nodes(),
            final(self).spec_root_node_id() == Some(node_id),
    {
        self.root_node_id = Some(node_id);
    }

    /// Returns the id of the root node.
    pub fn get_root_node_id(&self) -> (r: Option<NodeId>)
        ensures
            r == self.spec_root_node_id(),
    {
        self.root_node_id
    }

    /// Creates a new node with the given label and adds it to the tree.
    ///
    /// The created node is not attached to any other node; unless it is the
    /// root it still needs to be added as some node's child.  The first node
    /// ever created becomes the root.
    pub fn create_node(&mut self, label: String) -> (r: NodeId)
        ensures
            r == old(self).spec_len(),
            final(self).spec_len() == old(self).spec_len() + 1,
            final(self).spec_nodes() == old(self).spec_nodes().push(final(self).spec_nodes()[r as int]),
            final(self).spec_nodes()[r as int].spec_label() == label@,
            final(self).spec_nodes()[r as int].spec_id() == r,
            final(self).spec_nodes()[r as int].spec_children() == Seq::<NodeId>::empty(),
            final(self).spec_nodes()[r as int].spec_shapes() == Seq::<Rc<Shape>>::empty(),
            final(self).spec_nodes()[r as int].spec_transform() is None,
            final(self).spec_nodes()[r as int].spec_material() is None,
            final(self).spec_root_node_id() == if old(self).spec_root_node_id() is None {
                Some(r)
            } else {
                old(self).spec_root_node_id()
            },
    {
        let new_node_id = self.node_pool.len();
        let new_node = Node::new(label, new_node_id);
        self.node_pool.push(new_node);
        if self.root_node_id.is_none() {
            self.root_node_id = Some(new_node_id);
        }
        new_node_id
    }

    /// Creates a new node with the given label and adds it to the tree as a
    /// child of the node with the given parent id.
    pub fn create_node_with_parent(&mut self, label: String, parent_id: NodeId) -> (r: NodeId)
        requires
            parent_id < old(self).spec_len(),
        ensures
            r == old(self).spec_len(),
            final(self).spec_len() == old(self).spec_len() + 1,
            final(self).spec_nodes()[r as int].spec_label() == label@,
            final(self).spec_nodes()[r as int].spec_id() == r,
            final(self).spec_nodes()[r as int].spec_children() == Seq::<NodeId>::empty(),
            final(self).spec_nodes()[r as int].spec_shapes() == Seq::<Rc<Shape>>::empty(),
            final(self).spec_nodes()[r as int].spec_transform() is None,
            final(self).spec_nodes()[r as int].spec_material() is None,
            final(self).spec_nodes()[parent_id as int].spec_children() == old(
                self,
            ).spec_nodes()[parent_id as int].spec_children().push(r),
            final(self).spec_nodes()[parent_id as int].spec_label() == old(
                self,
            ).spec_nodes()[parent_id as int].spec_label(),
            final(self).spec_nodes()[parent_id as int].spec_id() == old(
                self,
            ).spec_nodes()[parent_id as int].spec_id(),
            final(self).spec_nodes()[parent_id as int].spec_transform() == old(
                self,
            ).spec_nodes()[parent_id as int].spec_transform(),
            final(self).spec_nodes()[parent_id as int].spec_material() == old(
                self,
            ).spec_nodes()[parent_id as int].spec_material(),
            final(self).spec_nodes()[parent_id as int].spec_shapes() == old(
                self,
            ).spec_nodes()[parent_id as int].spec_shapes(),
            forall|i: int|
                0 <= i < old(self).spec_len() && i != parent_id ==> final(self).spec_nodes()[i] == old(
                    self,
                ).spec_nodes()[i],
            final(self).spec_root_node_id() == if old(self).spec_root_node_id() is None {
                Some(r)
            } else {
                old(self).spec_root_node_id()
            },
    {
        let new_node_id = self.create_node(label);
        let parent_node = &mut self.node_pool[parent_id];
        parent_node.add_child(new_node_id);
        new_node_id
    }

    /// Returns a reference to the root node.
    pub fn get_root_node(&self) -> (r: Option<&Node>)
        ensures
            match r {
                Some(n) => self.spec_len() > 0 && *n == self.spec_nodes()[0],
                None => self.spec_len() == 0,
            },
    {
        if self.node_pool.len() == 0 {
            None
        } else {
            Some(&self.node_pool[0])
        }
    }

    /// Returns a reference to the node with the given id.
    pub fn get_node(&self, node_id: NodeId) -> (r: Option<&Node>)
        ensures
            match r {
                Some(n) => node_id < self.spec_len() && *n == self.spec_nodes()[node_id as int],
                None => node_id >= self.spec_len(),
            },
    {
        if node_id < self.node_pool.len() {
            Some(&self.node_pool[node_id])
        } else {
            None
        }
    }

    /// Attaches a shape to the node with the given id.
    pub fn attach_shape_to_node(&mut self, node_id: NodeId, shape: Rc<Shape>)
        requires
            node_id < old(self).spec_len(),
        ensures
            final(self).spec_len() == old(self).spec_len(),
            final(self).spec_root_node_id() == old(self).spec_root_node_id(),
            final(self).spec_nodes()[node_id as int].spec_shapes() == old(
                self,
            ).spec_nodes()[node_id as int].spec_shapes().push(shape),
            final(self).spec_nodes()[node_id as int].spec_id() == old(self).spec_nodes()[node_id as int].spec_id(),
            final(self).spec_nodes()[node_id as int].spec_label() == old(self).spec_nodes()[node_id as int].spec_label(),
            final(self).spec_nodes()[node_id as int].spec_transform() == old(self).spec_nodes()[node_id as int].spec_transform(),
            final(self).spec_nodes()[node_id as int].spec_material() == old(self).spec_nodes()[node_id as int].spec_material(),
            final(self).spec_nodes()[node_id as int].spec_children() == old(self).spec_nodes()[node_id as int].spec_children(),
            forall|i: int|
                0 <= i < old(self).spec_len() && i != node_id ==> final(self).spec_nodes()[i] == old(
                    self,
                ).spec_nodes()[i],
    {
        let node = &mut self.node_pool[node_id];
        node.attach_shape(shape);
    }

    /// Sets the transform of the node with the given id.
    pub fn set_node_transform(&mut self, node_id: NodeId, transform: [u32; 16])
        requires
            node_id < old(self).spec_len(),
        ensures
            final(self).spec_len() == old(self).spec_len(),
            final(self).spec_root_node_id() == old(self).spec_root_node_id(),
            final(self).spec_nodes()[node_id as int].spec_transform() == Some(transform),
            final(self).spec_nodes()[node_id as int].spec_id() == old(self).spec_nodes()[node_id as int].spec_id(),
            final(self).spec_nodes()[node_id as int].spec_label() == old(self).spec_nodes()[node_id as int].spec_label(),
            final(self).spec_nodes()[node_id as int].spec_material() == old(self).spec_nodes()[node_id as int].spec_material(),
            final(self).spec_nodes()[node_id as int].spec_shapes() == old(self).spec_nodes()[node_id as int].spec_shapes(),
            final(self).spec_nodes()[node_id as int].spec_children() == old(self).spec_nodes()[node_id as int].spec_children(),
            forall|i: int|
                0 <= i < old(self).spec_len() && i != node_id ==> final(self).spec_nodes()[i] == old(
                    self,
                ).spec_nodes()[i],
    {
        let node = &mut self.node_pool[node_id];
        node.set_transform(transform);
    }

    /// Sets the material of the node with the given id.
    pub fn set_node_material(&mut self, node_id: NodeId, material: Rc<Material>)
        requires
            node_id < old(self).spec_len(),
        ensures
            final(self).spec_len() == old(self).spec_len(),
            final(self).spec_root_node_id() == old(self).spec_root_node_id(),
            final(self).spec_nodes()[node_id as int].spec_material() == Some(*material),
            final(self).spec_nodes()[node_id as int].spec_id() == old(self).spec_nodes()[node_id as int].spec_id(),
            final(self).spec_nodes()[node_id as int].spec_label() == old(self).spec_nodes()[node_id as int].spec_label(),
            final(self).spec_nodes()[node_id as int].spec_transform() == old(self).spec_nodes()[node_id as int].spec_transform(),
            final(self).spec_nodes()[node_id as int].spec_shapes() == old(self).spec_nodes()[node_id as int].spec_shapes(),
            final(self).spec_nodes()[node_id as int].spec_children() == old(self).spec_nodes()[node_id as int].spec_children(),
            forall|i: int|
                0 <= i < old(self).spec_len() && i != node_id ==> final(self).spec_nodes()[i] == old(
                    self,
                ).spec_nodes()[i],
    {
        let node = &mut self.node_pool[node_id];
        node.set_material(material);
    }

    /// Returns the number of nodes in the tree.
    pub fn len(&self) -> (r: usize)
        ensures
            r == self.spec_len(),
    {
        self.node_pool.len()
    }
}

} // verus!
