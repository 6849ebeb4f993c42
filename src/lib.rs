pub mod ctx;
pub mod dprocess;
pub mod effect;
pub mod flags;
pub mod laws;
pub mod locks;
pub mod mailbox;
pub mod processor_attachment;
pub mod reduce;
pub mod status;
pub mod table;
pub mod timer;
pub mod ty;
pub mod value;
pub mod vm;
