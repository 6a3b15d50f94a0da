use vstd::prelude::*;

verus! {

/// A position-carrying JSON parse failure.
#[derive(Debug, Clone)]
pub struct JsonError {
    pub line: usize,
    pub column: usize,
    pub message: String,
}

/// One finding of the scenario validator, located by a JSON-pointer-like path.
#[derive(Debug, Clone)]
pub struct ValidationError {
    pub path: String,
    pub code: String,
    pub message: String,
}

/// All findings of one validation pass.
#[derive(Debug)]
pub struct ValidationErrors {
    pub items: Vec<ValidationError>,
}

/// A failure of loading or validating a scenario. The I/O variant carries
/// the failure rendered as text.
#[derive(Debug)]
pub enum ProtocolError {
    Io(String),
    Json(JsonError),
    Validation(ValidationErrors),
}

} // verus!
