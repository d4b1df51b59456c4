//! Compiles exposed declarations (classes, enumerations, method blocks and free
//! functions) into descriptors from which a Python type-stub file is rendered.

pub mod model;
pub mod attr;
pub mod signature;
pub mod member;
pub mod class;
pub mod enumeration;
pub mod function;
pub mod methods;
pub mod declaration;
