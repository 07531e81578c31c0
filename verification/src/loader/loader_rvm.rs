//! Loader for a binary plant/piping format: big-endian 32-bit words carrying
//! keyword-tagged sections of groups and parametric primitives.

mod cad_data_creator;
mod identifier;
mod material;
mod primitive;
mod identifier_reader;
mod reader;
mod rvm_parser;
pub mod tessellate;

pub use cad_data_creator::CADDataCreator;
pub use cad_data_creator::translation_matrix;
pub use cad_data_creator::translation_matrix_spec;
pub use identifier::Identifier;
pub use identifier::is_valid_chars;
pub use identifier::keyword_at;
pub use material::RVMMaterialManager;
pub use material::rvm_material_of;
pub use primitive::BoxData;
pub use primitive::CircularTorusData;
pub use primitive::Contour;
pub use primitive::CylinderData;
pub use primitive::EllipticalDishData;
pub use primitive::LineData;
pub use primitive::ParseOutcome;
pub use primitive::Polygon;
pub use primitive::PolygonsData;
pub use primitive::Primitive;
pub use primitive::PrimitiveData;
pub use primitive::PyramidData;
pub use primitive::RectangularTorusData;
pub use primitive::SnoutData;
pub use primitive::SphereData;
pub use primitive::SphericalDishData;
pub use primitive::Vertex;
pub use identifier_reader::IdentifierReader;
pub use reader::ByteReader;
pub use reader::be_word;
pub use rvm_parser::RVMHeader;
pub use rvm_parser::RVMInterpreter;
pub use rvm_parser::RVMModelHeader;
pub use rvm_parser::RVMParser;
pub use rvm_parser::RvmEvent;
pub use rvm_parser::RvmEventKind;
pub use rvm_parser::count_of;
pub use rvm_parser::kind_of;
pub use rvm_parser::spec_depth;
pub use rvm_parser::spec_group_header_end;
pub use rvm_parser::spec_head_end;
pub use rvm_parser::spec_model_end;
pub use rvm_parser::first_model_name;
pub use rvm_parser::spec_data_group_count;
pub use rvm_parser::spec_data_sections;
pub use rvm_parser::spec_model_name;
pub use rvm_parser::spec_primitive_section_end;
pub use rvm_parser::str_eq;

use vstd::prelude::*;

use crate::error::Error;
use crate::loader::loader_rvm::identifier::keyword_chars_at;
use crate::loader::loader_rvm::identifier::spec_first_keyword;
use crate::loader::loader_rvm::rvm_parser::spec_data_group_count as data_sections_group_count;
use crate::loader::loader_rvm::rvm_parser::spec_model_name as model_section_name;
use crate::loader::loader_rvm::rvm_parser::spec_data_sections as data_sections_outcome;
use crate::loader::loader_rvm::rvm_parser::spec_head_end as head_section_end;
use crate::loader::loader_rvm::rvm_parser::spec_model_end as model_section_end;
use crate::loader::loader_rvm::tessellate::Tessellator;
use crate::structure::CADData;

verus! {

/// Loader for the binary RVM plant-design format.
pub struct LoaderRVM {}

impl LoaderRVM {
    /// Returns a new RVM loader.
    pub fn new() -> (r: Self) {
        Self {  }
    }

    /// Reads CAD data from the given in-memory bytes, asking the given
    /// tessellator for each primitive's mesh.
    ///
    /// The finished scene carries the format's native length unit,
    /// millimeters, and holds the model root plus one node per group that the
    /// stream opened.
    pub fn read_memory<T: Tessellator>(&self, data: Vec<u8>, tessellator: T) -> (r: Result<
        CADData,
        Error,
    >)
        ensures
            r matches Ok(cad) ==> cad.spec_length_unit().in_nanometers == 1_000_000u64
                && cad.spec_assembly().spec_len() >= 1 && cad.spec_assembly().spec_root_node_id()
                == Some(0usize),
            // The whole load succeeds exactly when the stream parses: a
            // header section, a model section, then balanced group and
            // primitive sections with in-range material ids, closed by END.
            r is Ok <==> ({
                let hm = head_section_end(data@, 0);
                &&& hm is Some
                &&& model_section_end(data@, hm->Some_0) is Some
                &&& data_sections_outcome(
                    data@,
                    model_section_end(data@, hm->Some_0)->Some_0,
                    0,
                ) is Done
            }),
            // Success is owed when a header and a model section parse and the
            // data section opens with END: the creator accepts all of it.
            ({
                let hm = head_section_end(data@, 0);
                &&& hm is Some
                &&& model_section_end(data@, hm->Some_0) is Some
                &&& ({
                    let fk = spec_first_keyword(data@, model_section_end(data@, hm->Some_0)->Some_0);
                    fk matches Some(j) && keyword_chars_at(data@, j) == seq![69u8, 78u8, 68u8, 0u8]
                })
            }) ==> r is Ok,
            // The finished assembly mirrors the stream: the model root plus
            // one node per group section.
            r matches Ok(cad) ==> cad.spec_assembly().spec_len() == 1 + data_sections_group_count(
                data@,
                model_section_end(data@, head_section_end(data@, 0)->Some_0)->Some_0,
                0,
            ),
            // The root node carries the stream's model name.
            r matches Ok(cad) ==> cad.spec_assembly().spec_nodes()[0].spec_label()
                == model_section_name(data@, head_section_end(data@, 0)->Some_0),
    {
        let mut cad_creator = CADDataCreator::new(tessellator);
        let mut parser = RVMParser::new(data);
        proof {
            assert(spec_depth(cad_creator.events()) == 0);
        }
        match parser.parse(&mut cad_creator) {
            Ok(()) => {},
            Err(e) => {
                return Err(e);
            },
        }
        proof {
            cad_creator.lemma_tree_node_count();
        }
        Ok(cad_creator.to_cad_data())
    }
}

} // verus!
