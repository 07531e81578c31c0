//! The CAD data creator builds the scene tree from the parse events.
//!
//! It mirrors the group nesting with a node-id stack, resolves the color
//! palette into shared materials, asks its tessellator for each primitive's
//! mesh, and accumulates the meshes of the open group into a shape that is
//! attached when the group ends.

use std::rc::Rc;

use vstd::prelude::*;

use crate::basic_types::IDCounter;
use crate::basic_types::ONE_BITS;
use crate::error::Error;
use crate::loader::loader_rvm::material::RVMMaterialManager;
use crate::loader::loader_rvm::material::rvm_material_of;
use crate::loader::loader_rvm::primitive::Primitive;
use crate::loader::loader_rvm::rvm_parser::RVMHeader;
use crate::loader::loader_rvm::rvm_parser::RVMInterpreter;
use crate::loader::loader_rvm::rvm_parser::RVMModelHeader;
use crate::loader::loader_rvm::rvm_parser::RvmEvent;
use crate::loader::loader_rvm::rvm_parser::RvmEventKind;
use crate::loader::loader_rvm::rvm_parser::count_of;
use crate::loader::loader_rvm::rvm_parser::first_model_name;
use crate::loader::loader_rvm::rvm_parser::lemma_count_push;
use crate::loader::loader_rvm::rvm_parser::lemma_first_model_name_push;
use crate::loader::loader_rvm::rvm_parser::spec_depth;
use crate::loader::loader_rvm::tessellate::Tessellator;
use crate::structure::CADData;
use crate::structure::Material;
use crate::structure::Mesh;
use crate::structure::NodeId;
use crate::structure::Shape;
use crate::structure::ShapePart;
use crate::structure::Tree;
use crate::units::Length;

verus! {

/// The bits of the column-major 4x4 matrix translating by the given vector:
/// an identity linear part with the translation in the last column.
pub open spec fn translation_matrix_spec(t: Seq<u32>) -> Seq<u32> {
    seq![
        ONE_BITS, 0u32, 0u32, 0u32,
        0u32, ONE_BITS, 0u32, 0u32,
        0u32, 0u32, ONE_BITS, 0u32,
        t[0], t[1], t[2], ONE_BITS,
    ]
}

/// Returns the bits of the column-major 4x4 matrix translating by the given
/// vector.
pub fn translation_matrix(t: &[u32; 3]) -> (r: [u32; 16])
    ensures
        r@ == translation_matrix_spec(t@),
{
    let r: [u32; 16] = [
        ONE_BITS,
        0,
        0,
        0,
        0,
        ONE_BITS,
        0,
        0,
        0,
        0,
        ONE_BITS,
        0,
        t[0],
        t[1],
        t[2],
        ONE_BITS,
    ];
    proof {
        assert(r@ =~= translation_matrix_spec(t@));
    }
    r
}

/// Whether the creator asks its tessellator for a mesh of this primitive
/// kind.  The remaining kinds are logged and skipped without failing the
/// parse.
pub open spec fn spec_supported_kind(p: Primitive) -> bool {
    match p {
        Primitive::Box(_) => true,
        Primitive::Cylinder(_) => true,
        Primitive::Sphere(_) => true,
        Primitive::Polygons(_) => true,
        Primitive::Pyramid(_) => true,
        _ => false,
    }
}

/// The CAD data creator consumes parse events and grows the scene tree.
pub struct CADDataCreator<T: Tessellator> {
    /// The node ids of the open groups, the model root at the bottom.
    node_stack: Vec<NodeId>,
    /// The tree under construction.
    tree: Tree,
    /// The shape accumulating the meshes of the currently open group.
    shape: Option<Shape>,
    /// The palette-to-material cache.
    material_map: RVMMaterialManager,
    /// The supplier of triangle meshes for the primitives.
    tessellator: T,
    /// The id generator for shapes.
    shape_ids: IDCounter,
    /// The events accepted so far.
    events: Ghost<Seq<RvmEvent>>,
}

impl<T: Tessellator> CADDataCreator<T> {
    /// The tree built so far.
    pub closed spec fn spec_tree(&self) -> Tree {
        self.tree
    }

    /// The node-id stack of the open groups.
    pub closed spec fn spec_stack(&self) -> Seq<NodeId> {
        self.node_stack@
    }

    /// How many mesh parts the open group has accumulated.
    pub closed spec fn spec_pending_parts(&self) -> nat {
        self.spec_pending().len()
    }

    /// The mesh parts the open group has accumulated.
    pub closed spec fn spec_pending(&self) -> Seq<ShapePart> {
        match self.shape {
            Some(s) => s.spec_parts(),
            None => Seq::empty(),
        }
    }

    /// Returns a new CAD data creator that asks the given tessellator for
    /// each primitive's mesh.
    pub fn new(tessellator: T) -> (r: Self)
        ensures
            r.inv(),
            r.events() == Seq::<RvmEvent>::empty(),
            r.spec_tree().spec_len() == 0,
            r.spec_stack().len() == 0,
            r.spec_pending() == Seq::<ShapePart>::empty(),
    {
        let r = Self {
            node_stack: Vec::new(),
            tree: Tree::new(),
            shape: None,
            material_map: RVMMaterialManager::new(),
            tessellator,
            shape_ids: IDCounter::new(),
            events: Ghost(Seq::empty()),
        };
        proof {
            assert(r.spec_stack() =~= Seq::<NodeId>::empty());
            assert(r.spec_pending() =~= Seq::<ShapePart>::empty());
        }
        r
    }

    /// Transforms the CAD data creator into a CAD data object carrying the
    /// format's native length unit, millimeters.
    ///
    /// The tree holds one node per accepted model header or group begin
    /// event.
    pub fn to_cad_data(self) -> (r: CADData)
        requires
            self.inv(),
        ensures
            r.spec_assembly() == self.spec_tree(),
            r.spec_length_unit().in_nanometers == 1_000_000u64,
            r.spec_assembly().spec_len() == count_of(self.events(), RvmEventKind::Model)
                + count_of(self.events(), RvmEventKind::BeginGroup),
            r.spec_assembly().spec_len() == 0 ==> r.spec_assembly().spec_root_node_id() is None,
            r.spec_assembly().spec_len() > 0 ==> r.spec_assembly().spec_root_node_id() == Some(
                0usize,
            ),
            count_of(self.events(), RvmEventKind::Model) > 0 ==> r.spec_assembly().spec_nodes()[0]
                .spec_label() == first_model_name(self.events()),
    {
        let mut cad_data = CADData::new(self.tree);
        cad_data.change_length_unit(Length::millimeter());
        cad_data
    }

    /// Wraps a tessellated mesh into a part carrying no material of its own
    /// and appends it to the open group's accumulator, creating the shape on
    /// its first part.
    fn accumulate_part(&mut self, mesh: Mesh)
        requires
            old(self).inv(),
        ensures
            final(self).inv(),
            final(self).events() == old(self).events(),
            final(self).spec_tree() == old(self).spec_tree(),
            final(self).spec_stack() == old(self).spec_stack(),
            final(self).spec_palette() == old(self).spec_palette(),
            final(self).spec_pending() == old(self).spec_pending().push(
                final(self).spec_pending().last(),
            ),
            final(self).spec_pending().last().spec_mesh() == mesh,
            final(self).spec_pending().last().spec_material() == Material::Unassigned,
    {
        let mut shape = match self.shape.take() {
            Some(shape) => shape,
            None => {
                let id = self.shape_ids.gen();
                Shape::new(id)
            },
        };
        let part = ShapePart::new(Rc::new(mesh), Rc::new(Material::Unassigned));
        shape.add_part(part);
        self.shape = Some(shape);
    }

    /// The tree's node count always equals the number of accepted model
    /// header events plus the number of accepted group begin events: for a
    /// well-formed stream, which has one model header, one plus the number of
    /// groups.
    pub proof fn lemma_tree_node_count(&self)
        requires
            self.inv(),
        ensures
            self.spec_tree().spec_len() == count_of(self.events(), RvmEventKind::Model)
                + count_of(self.events(), RvmEventKind::BeginGroup),
    {
    }

    /// For a well-formed stream, which carries exactly one model header, the
    /// tree's node count equals one (the root) plus the number of groups the
    /// stream opened.
    pub proof fn lemma_balanced_stream_node_count(&self)
        requires
            self.inv(),
            count_of(self.events(), RvmEventKind::Model) == 1,
        ensures
            self.spec_tree().spec_len() == 1 + count_of(self.events(), RvmEventKind::BeginGroup),
    {
    }

    /// The stack depth always equals the number of accepted model header and
    /// group begin events minus the accepted group ends; group ends are
    /// accepted only above depth one, so the root is never popped.
    pub proof fn lemma_stack_depth(&self)
        requires
            self.inv(),
        ensures
            self.spec_stack().len() + count_of(self.events(), RvmEventKind::EndGroup) == count_of(
                self.events(),
                RvmEventKind::Model,
            ) + count_of(self.events(), RvmEventKind::BeginGroup),
    {
    }
}

impl<T: Tessellator> RVMInterpreter for CADDataCreator<T> {
    /// The tree and stack sizes are determined by the accepted events, and
    /// every stacked node id points into the tree.
    closed spec fn inv(&self) -> bool {
        &&& self.tree.spec_len() == count_of(self.events@, RvmEventKind::Model) + count_of(
            self.events@,
            RvmEventKind::BeginGroup,
        )
        &&& self.node_stack@.len() + count_of(self.events@, RvmEventKind::EndGroup) == count_of(
            self.events@,
            RvmEventKind::Model,
        ) + count_of(self.events@, RvmEventKind::BeginGroup)
        &&& forall|i: int|
            0 <= i < self.node_stack@.len() ==> (#[trigger] self.node_stack@[i])
                < self.tree.spec_len()
        &&& self.tree.spec_len() == 0 ==> self.tree.spec_root_node_id() is None
        &&& self.tree.spec_len() > 0 ==> self.tree.spec_root_node_id() == Some(0usize)
        &&& count_of(self.events@, RvmEventKind::Model) == 0 ==> count_of(
            self.events@,
            RvmEventKind::BeginGroup,
        ) == 0
        &&& count_of(self.events@, RvmEventKind::Model) > 0 ==> (self.tree.spec_len() > 0
            && self.tree.spec_nodes()[0].spec_label() == first_model_name(self.events@))
        &&& (self.shape matches Some(s) ==> s.spec_parts().len() > 0)
        &&& self.material_map.wf()
    }

    closed spec fn events(&self) -> Seq<RvmEvent> {
        self.events@
    }

    /// The header carries no structure; it is accepted and recorded.
    fn header(&mut self, header: RVMHeader) -> (r: Result<(), Error>)
        ensures
            final(self).spec_tree() == old(self).spec_tree(),
            final(self).spec_stack() == old(self).spec_stack(),
            final(self).spec_pending() == old(self).spec_pending(),
    {
        proof {
            lemma_count_push(self.events@, RvmEvent::Header, RvmEventKind::Header);
            lemma_count_push(self.events@, RvmEvent::Header, RvmEventKind::Model);
            lemma_count_push(self.events@, RvmEvent::Header, RvmEventKind::BeginGroup);
            lemma_count_push(self.events@, RvmEvent::Header, RvmEventKind::EndGroup);
            lemma_first_model_name_push(self.events@, RvmEvent::Header);
            self.events@ = self.events@.push(RvmEvent::Header);
        }
        Ok(())
    }

    /// The model header creates one node, labelled with the model name, and
    /// opens it on the stack; when the tree was empty it becomes the root.
    fn model(&mut self, header: RVMModelHeader) -> (r: Result<(), Error>)
        ensures
            final(self).spec_tree().spec_len() == old(self).spec_tree().spec_len() + 1,
            final(self).spec_stack() == old(self).spec_stack().push(
                old(self).spec_tree().spec_len() as usize,
            ),
            ({
                let node = final(self).spec_tree().spec_nodes().last();
                &&& node.spec_label() == header.model_name@
                &&& node.spec_children() == Seq::<NodeId>::empty()
                &&& node.spec_shapes().len() == 0
                &&& node.spec_transform() is None
                &&& node.spec_material() is None
            }),
            forall|i: int|
                0 <= i < old(self).spec_tree().spec_len() ==> final(
                    self
            ).spec_tree().spec_nodes()[i] == old(self).spec_tree().spec_nodes()[i],
            old(self).spec_tree().spec_len() == 0 ==> final(self).spec_tree().spec_root_node_id()
                == Some(0usize),
            final(self).spec_pending() == old(self).spec_pending(),
    {
        let ghost name = header.model_name@;
        proof {
            lemma_count_push(self.events@, RvmEvent::Model(name), RvmEventKind::Header);
            lemma_count_push(self.events@, RvmEvent::Model(name), RvmEventKind::Model);
            lemma_count_push(self.events@, RvmEvent::Model(name), RvmEventKind::BeginGroup);
            lemma_count_push(self.events@, RvmEvent::Model(name), RvmEventKind::EndGroup);
            lemma_first_model_name_push(self.events@, RvmEvent::Model(name));
        }
        let root_id = self.tree.create_node(header.model_name);
        self.node_stack.push(root_id);
        proof {
            self.events@ = self.events@.push(RvmEvent::Model(name));
            assert(self.tree.spec_nodes().last() == self.tree.spec_nodes()[root_id as int]);
        }
        Ok(())
    }

    /// A primitive is tessellated and its mesh accumulated on the open
    /// group's shape.  An unsupported kind and a failed tessellation are both
    /// skipped without failing the parse.
    fn primitive(&mut self, primitive: Primitive, matrix: &[u32; 12]) -> (r: Result<(), Error>)
        ensures
            final(self).spec_tree() == old(self).spec_tree(),
            final(self).spec_stack() == old(self).spec_stack(),
            !spec_supported_kind(primitive) ==> final(self).spec_pending() == old(
                self,
            ).spec_pending(),
            final(self).spec_pending() == old(self).spec_pending() || (spec_supported_kind(
                primitive,
            ) && final(self).spec_pending() == old(self).spec_pending().push(
                final(self).spec_pending().last(),
            ) && final(self).spec_pending().last().spec_material() == Material::Unassigned),
    {
        proof {
            lemma_count_push(
                self.events@,
                RvmEvent::Primitive(primitive, matrix@),
                RvmEventKind::Header,
            );
            lemma_count_push(
                self.events@,
                RvmEvent::Primitive(primitive, matrix@),
                RvmEventKind::Model,
            );
            lemma_count_push(
                self.events@,
                RvmEvent::Primitive(primitive, matrix@),
                RvmEventKind::BeginGroup,
            );
            lemma_count_push(
                self.events@,
                RvmEvent::Primitive(primitive, matrix@),
                RvmEventKind::EndGroup,
            );
            lemma_first_model_name_push(self.events@, RvmEvent::Primitive(primitive, matrix@));
        }
        let supported = match &primitive {
            Primitive::Box(_) => true,
            Primitive::Cylinder(_) => true,
            Primitive::Sphere(_) => true,
            Primitive::Polygons(_) => true,
            Primitive::Pyramid(_) => true,
            _ => false,
        };
        proof {
            assert(supported == spec_supported_kind(primitive));
        }
        if supported {
            match self.tessellator.tessellate(&primitive, matrix) {
                Ok(Some(mesh)) => {
                    self.accumulate_part(mesh);
                },
                Ok(None) => {
                    // The tessellator does not support this kind: skip it.
                },
                Err(_) => {
                    // Tessellation failed: skip the primitive and continue.
                },
            }
        }
        proof {
            self.events@ = self.events@.push(RvmEvent::Primitive(primitive, matrix@));
        }
        Ok(())
    }

    /// A group begin validates the material index, creates a child node under
    /// the stack top with a translation transform and the resolved material,
    /// and opens it on the stack.
    ///
    /// A group before the model header and a material id outside the 256
    /// palette entries are format errors that change nothing.
    fn begin_group(&mut self, group_name: String, translation: &[u32; 3], material_id: usize) -> (r:
        Result<(), Error>)
        ensures
            r is Ok <==> old(self).spec_stack().len() > 0 && material_id < 256,
            match r {
                Ok(()) => {
                    &&& final(self).spec_tree().spec_len() == old(self).spec_tree().spec_len() + 1
                    &&& final(self).spec_stack() == old(self).spec_stack().push(
                        (old(self).spec_tree().spec_len() as usize),
                    )
                    &&& ({
                        let node = final(self).spec_tree().spec_nodes().last();
                        &&& node.spec_label() == group_name@
                        &&& node.spec_transform() matches Some(m) && m@ == translation_matrix_spec(
                            translation@,
                        )
                        &&& node.spec_material() matches Some(mat) && mat == rvm_material_of(
                            final(self).spec_palette()[material_id as int],
                        )
                        &&& node.spec_children() == Seq::<NodeId>::empty()
                        &&& node.spec_shapes().len() == 0
                    })
                    &&& ({
                        let parent = old(self).spec_stack().last();
                        &&& final(self).spec_tree().spec_nodes()[parent as int].spec_children()
                            == old(self).spec_tree().spec_nodes()[parent as int].spec_children().push(
                            (old(self).spec_tree().spec_len() as usize),
                        )
                        &&& forall|i: int|
                            0 <= i < old(self).spec_tree().spec_len() && i != parent ==> final(
                                self
            ).spec_tree().spec_nodes()[i] == old(self).spec_tree().spec_nodes()[i]
                    })
                    &&& final(self).spec_pending() == old(self).spec_pending()
                },
                Err(e) => {
                    &&& e.is_invalid_format()
                    &&& final(self).spec_tree() == old(self).spec_tree()
                    &&& final(self).spec_stack() == old(self).spec_stack()
                    &&& final(self).spec_pending() == old(self).spec_pending()
                },
            },
    {
        if self.node_stack.len() == 0 {
            proof {
                assert(spec_depth(self.events@) == 0);
            }
            return Err(Error::InvalidFormat("group begun before the model header".to_owned()));
        }
        if material_id >= 256 {
            return Err(Error::InvalidFormat("material id out of range".to_owned()));
        }
        let ghost pushed = RvmEvent::BeginGroup(group_name@, translation@, material_id as int);
        proof {
            lemma_count_push(self.events@, pushed, RvmEventKind::Header);
            lemma_count_push(self.events@, pushed, RvmEventKind::Model);
            lemma_count_push(self.events@, pushed, RvmEventKind::BeginGroup);
            lemma_count_push(self.events@, pushed, RvmEventKind::EndGroup);
            lemma_first_model_name_push(self.events@, pushed);
        }
        let material = self.material_map.create_material(material_id as u8);
        let parent_id = self.node_stack[self.node_stack.len() - 1];
        let new_id = self.tree.create_node_with_parent(group_name, parent_id);
        self.tree.set_node_transform(new_id, translation_matrix(translation));
        self.tree.set_node_material(new_id, material);
        self.node_stack.push(new_id);
        proof {
            self.events@ = self.events@.push(pushed);
            assert(self.tree.spec_nodes().last() == self.tree.spec_nodes()[new_id as int]);
        }
        Ok(())
    }

    /// A group end pops the stack; the meshes accumulated for the group, if
    /// any, are wrapped into a shared shape attached to the popped node.
    ///
    /// Ending a group at stack depth one or less is a format error that
    /// changes nothing: the model root is never popped and the tree is not
    /// touched.
    fn end_group(&mut self) -> (r: Result<(), Error>)
        ensures
            r is Ok <==> old(self).spec_stack().len() > 1,
            match r {
                Ok(()) => {
                    &&& final(self).spec_stack() == old(self).spec_stack().drop_last()
                    &&& final(self).spec_tree().spec_len() == old(self).spec_tree().spec_len()
                    &&& final(self).spec_pending_parts() == 0
                    &&& ({
                        let popped = old(self).spec_stack().last();
                        &&& (old(self).spec_pending_parts() == 0 ==> final(self).spec_tree()
                            == old(self).spec_tree())
                        &&& (old(self).spec_pending_parts() > 0 ==> ({
                            let shapes = final(
                                self
            ).spec_tree().spec_nodes()[popped as int].spec_shapes();
                            &&& shapes.len() == old(self).spec_tree().spec_nodes()[
                                popped as int
                            ].spec_shapes().len() + 1
                            &&& (*shapes.last()).spec_parts() == old(self).spec_pending()
                            &&& forall|i: int|
                                0 <= i < old(self).spec_tree().spec_len() && i != popped ==> final(
                                    self
            ).spec_tree().spec_nodes()[i] == old(self).spec_tree().spec_nodes()[i]
                        }))
                    })
                },
                Err(e) => {
                    &&& e.is_invalid_format()
                    &&& final(self).spec_tree() == old(self).spec_tree()
                    &&& final(self).spec_stack() == old(self).spec_stack()
                    &&& final(self).spec_pending() == old(self).spec_pending()
                },
            },
    {
        if self.node_stack.len() <= 1 {
            proof {
                assert(spec_depth(self.events@) == self.node_stack@.len());
            }
            return Err(
                Error::InvalidFormat("group end with no group open above the root".to_owned()),
            );
        }
        proof {
            lemma_count_push(self.events@, RvmEvent::EndGroup, RvmEventKind::Header);
            lemma_count_push(self.events@, RvmEvent::EndGroup, RvmEventKind::Model);
            lemma_count_push(self.events@, RvmEvent::EndGroup, RvmEventKind::BeginGroup);
            lemma_count_push(self.events@, RvmEvent::EndGroup, RvmEventKind::EndGroup);
            lemma_first_model_name_push(self.events@, RvmEvent::EndGroup);
        }
        let node_id = match self.node_stack.pop() {
            Some(id) => id,
            None => {
                proof {
                    assert(false);
                }
                return Err(Error::Internal("empty stack".to_owned()));
            },
        };
        match self.shape.take() {
            Some(shape) => {
                let ghost parts = shape.spec_parts();
                self.tree.attach_shape_to_node(node_id, Rc::new(shape));
                proof {
                    assert((*self.tree.spec_nodes()[node_id as int].spec_shapes().last()).spec_parts()
                        == parts);
                }
            },
            None => {},
        }
        proof {
            self.events@ = self.events@.push(RvmEvent::EndGroup);
        }
        Ok(())
    }
}

impl<T: Tessellator> CADDataCreator<T> {
    /// The fixed color palette the creator resolves material ids against.
    pub closed spec fn spec_palette(&self) -> Seq<crate::structure::PaletteColor> {
        self.material_map.spec_palette()
    }
}

} // verus!
