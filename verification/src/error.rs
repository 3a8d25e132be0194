use vstd::prelude::*;

verus! {

/// What can go wrong while data is generated, read or written. Each error
/// carries the text that describes it.
#[derive(Debug)]
pub enum DataGeneratorError {
    /// A file or directory could not be read or written.
    Io(String),
    /// A schema or mapping is no valid JSON.
    Json(String),
    /// A table could not be built, read or written.
    Polars(String),
    /// The command line could not be understood.
    Cli(String),
    Other(String),
    InvalidInput(String),
}

impl DataGeneratorError {
    /// What precedes the description in the message of the error.
    pub open spec fn prefix(self) -> Seq<char> {
        match self {
            DataGeneratorError::Io(_) => "IO error: "@,
            DataGeneratorError::Json(_) => "JSON parsing error: "@,
            DataGeneratorError::Polars(_) => "Polars error: "@,
            DataGeneratorError::Cli(_) => "CLI argument error: "@,
            DataGeneratorError::Other(_) => "Other error: "@,
            DataGeneratorError::InvalidInput(_) => "Invalid input: "@,
        }
    }

    /// The description that the error carries.
    pub open spec fn detail(self) -> Seq<char> {
        match self {
            DataGeneratorError::Io(text) => text@,
            DataGeneratorError::Json(text) => text@,
            DataGeneratorError::Polars(text) => text@,
            DataGeneratorError::Cli(text) => text@,
            DataGeneratorError::Other(text) => text@,
            DataGeneratorError::InvalidInput(text) => text@,
        }
    }

    /// The message of the error: the kind of error, then its description.
    pub fn message(&self) -> (text: String)
        ensures
            text@ == self.prefix() + self.detail(),
    {
        let (prefix, detail): (&str, &String) = match self {
            DataGeneratorError::Io(text) => ("IO error: ", text),
            DataGeneratorError::Json(text) => ("JSON parsing error: ", text),
            DataGeneratorError::Polars(text) => ("Polars error: ", text),
            DataGeneratorError::Cli(text) => ("CLI argument error: ", text),
            DataGeneratorError::Other(text) => ("Other error: ", text),
            DataGeneratorError::InvalidInput(text) => ("Invalid input: ", text),
        };
        let mut text = String::from_str(prefix);
        text.append(detail.as_str());
        text
    }
}

/// The description of a schema file that is not where it should be.
pub open spec fn schema_not_found_text(register: Seq<char>, path: Seq<char>) -> Seq<char> {
    "Schema file for register '"@ + register + "' not found at path: "@ + path
}

/// The description of a schema file that could not be read.
pub open spec fn schema_load_failed_text(register: Seq<char>, cause: Seq<char>) -> Seq<char> {
    "Failed to load JSON for register '"@ + register + "': "@ + cause
}

/// The description of a directory that could not be made for a register.
pub open spec fn register_dir_failed_text(register: Seq<char>, cause: Seq<char>) -> Seq<char> {
    "Failed to create directory for register '"@ + register + "': "@ + cause
}

/// The description of an input path that can be read neither as a file nor
/// as a directory.
pub open spec fn no_input_text(path: Seq<char>) -> Seq<char> {
    "Input path \""@ + path + "\" is neither a file nor a directory"@
}

/// The description of a file that stands where a directory is to be made.
pub open spec fn file_in_the_way_text(path: Seq<char>) -> Seq<char> {
    "A file with the name '"@ + path + "' already exists."@
}

/// The error for a register whose schema file is not at `path`.
pub fn schema_not_found(register: &str, path: &str) -> (error: DataGeneratorError)
    ensures
        error matches DataGeneratorError::Other(text) && text@ == schema_not_found_text(
            register@,
            path@,
        ),
{
    let mut text = String::from_str("Schema file for register '");
    text.append(register);
    text.append("' not found at path: ");
    text.append(path);
    DataGeneratorError::Other(text)
}

/// The error for a register whose schema file could not be read.
pub fn schema_load_failed(register: &str, cause: &str) -> (error: DataGeneratorError)
    ensures
        error matches DataGeneratorError::Other(text) && text@ == schema_load_failed_text(
            register@,
            cause@,
        ),
{
    let mut text = String::from_str("Failed to load JSON for register '");
    text.append(register);
    text.append("': ");
    text.append(cause);
    DataGeneratorError::Other(text)
}

/// The error for a register whose directory could not be made.
pub fn register_dir_failed(register: &str, cause: &str) -> (error: DataGeneratorError)
    ensures
        error matches DataGeneratorError::Other(text) && text@ == register_dir_failed_text(
            register@,
            cause@,
        ),
{
    let mut text = String::from_str("Failed to create directory for register '");
    text.append(register);
    text.append("': ");
    text.append(cause);
    DataGeneratorError::Other(text)
}

/// The error for an input path that is neither a file nor a directory.
pub fn no_input(path: &str) -> (error: DataGeneratorError)
    ensures
        error matches DataGeneratorError::InvalidInput(text) && text@ == no_input_text(path@),
{
    let mut text = String::from_str("Input path \"");
    text.append(path);
    text.append("\" is neither a file nor a directory");
    DataGeneratorError::InvalidInput(text)
}

/// The error for a file that stands where a directory is to be made.
pub fn file_in_the_way(path: &str) -> (error: DataGeneratorError)
    ensures
        error matches DataGeneratorError::Io(text) && text@ == file_in_the_way_text(path@),
{
    let mut text = String::from_str("A file with the name '");
    text.append(path);
    text.append("' already exists.");
    DataGeneratorError::Io(text)
}

/// The error for a directory that holds no table.
pub fn no_dataframes() -> (error: DataGeneratorError)
    ensures
        error matches DataGeneratorError::Other(text) && text@ == "No dataframes found"@,
{
    DataGeneratorError::Other(String::from_str("No dataframes found"))
}

} // verus!
