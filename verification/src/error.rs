use vstd::prelude::*;

verus! {

/// The closed set of failures the library reports. Each variant stands for one
/// external failure source; the carried string is the underlying diagnostic.
#[derive(Debug)]
pub enum TodoError {
    /// A file could not be read or written.
    Io(String),
    /// The JSON payload could not be decoded at all.
    SerdeJson(String),
    /// The underlying storage engine reported an error.
    Rusqlite(String),
    /// The top-level payload of an import is not a JSON array.
    InvalidJsonFormat,
    /// A store-level failure that is not an engine error, such as an
    /// exhausted id space.
    DatabaseError(String),
    /// Reserved for callers that want to report a missing task.
    NotFound(String),
}

impl TodoError {
    /// The human-readable diagnostic for this error.
    pub open spec fn message_spec(&self) -> Seq<char> {
        match self {
            TodoError::Io(m) => "Error de entrada/salida: "@ + m@,
            TodoError::SerdeJson(m) => "Error de JSON: "@ + m@,
            TodoError::Rusqlite(m) => "Error de base de datos: "@ + m@,
            TodoError::InvalidJsonFormat => "Formato JSON invalido. Asegurese de que el archivo tenga el formato adecuado."@,
            TodoError::DatabaseError(m) => "Error en la base de datos: "@ + m@,
            TodoError::NotFound(m) => "No encontrado: "@ + m@,
        }
    }

    /// Renders the diagnostic text for this error.
    pub fn message(&self) -> (r: String)
        ensures
            r@ == self.message_spec(),
    {
        match self {
            TodoError::Io(m) => {
                let mut s = String::from_str("Error de entrada/salida: ");
                s.append(m.as_str());
                s
            },
            TodoError::SerdeJson(m) => {
                let mut s = String::from_str("Error de JSON: ");
                s.append(m.as_str());
                s
            },
            TodoError::Rusqlite(m) => {
                let mut s = String::from_str("Error de base de datos: ");
                s.append(m.as_str());
                s
            },
            TodoError::InvalidJsonFormat => {
                String::from_str("Formato JSON invalido. Asegurese de que el archivo tenga el formato adecuado.")
            },
            TodoError::DatabaseError(m) => {
                let mut s = String::from_str("Error en la base de datos: ");
                s.append(m.as_str());
                s
            },
            TodoError::NotFound(m) => {
                let mut s = String::from_str("No encontrado: ");
                s.append(m.as_str());
                s
            },
        }
    }
}

} // verus!
