//! The loaders turning raw input bytes into the in-memory CAD structure.

pub mod loader_gltf;
pub mod loader_off;
pub mod options;
pub mod resource;
pub mod loader_rvm;

pub use loader_gltf::AccessorIterator;
pub use loader_gltf::LoaderGLTF;
pub use loader_off::LoaderOff;
pub use options::EnumDescriptor;
pub use options::EnumValue;
pub use resource::FileResource;
pub use resource::MemoryResource;
pub use resource::Resource;
pub use loader_rvm::LoaderRVM;
