//! Lógica verificada del cuaderno de notas dictadas: normalización de textos,
//! composición de los documentos e informes, transcripciones de entrevistas y
//! las reglas de proyectos, notas y roles.

pub mod texto;
pub mod orden;
pub mod llm;
pub mod notas;
pub mod analisis;
pub mod entrevistas;
pub mod leyes;
pub mod salidas;
