pub mod binaryoperatorkind;
pub mod unaryoperatorkind;
