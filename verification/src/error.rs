use vstd::prelude::*;
use vstd::string::*;

verus! {

/// Everything that can go wrong while loading, changing or saving the alias table.
///
/// Causes reported by the operating system or by the config parser are kept as
/// the text of their message.
#[derive(Debug, PartialEq, Eq)]
pub enum Error {
    /// The project directory could not be created.
    ProjectDirCreation(String),
    /// The config file could not be read.
    ConfigRead(String),
    /// The config file could not be written.
    ConfigWrite(String),
    /// The config file is not a valid alias table.
    ConfigParse(String),
    /// The alias table could not be turned into config text.
    ConfigSerialize(String),
    /// The link file of the alias could not be created.
    LinkCreation(String, String),
    /// A link file for the alias is already on disk, so it was not created.
    LinkAlreadyExists(String),
    /// The link file of the alias could not be written.
    LinkUpdate(String, String),
    /// The link file of the alias could not be deleted.
    LinkRemoval(String, String),
    /// The alias is already in the table and overwriting was not asked for.
    AliasExists(String),
}

/// The mathematical value of an [`Error`]: the same cases over sequences of characters.
pub enum ErrorView {
    ProjectDirCreation(Seq<char>),
    ConfigRead(Seq<char>),
    ConfigWrite(Seq<char>),
    ConfigParse(Seq<char>),
    ConfigSerialize(Seq<char>),
    LinkCreation(Seq<char>, Seq<char>),
    LinkAlreadyExists(Seq<char>),
    LinkUpdate(Seq<char>, Seq<char>),
    LinkRemoval(Seq<char>, Seq<char>),
    AliasExists(Seq<char>),
}

impl View for Error {
    type V = ErrorView;

    open spec fn view(&self) -> ErrorView {
        match self {
            Error::ProjectDirCreation(cause) => ErrorView::ProjectDirCreation(cause@),
            Error::ConfigRead(cause) => ErrorView::ConfigRead(cause@),
            Error::ConfigWrite(cause) => ErrorView::ConfigWrite(cause@),
            Error::ConfigParse(cause) => ErrorView::ConfigParse(cause@),
            Error::ConfigSerialize(cause) => ErrorView::ConfigSerialize(cause@),
            Error::LinkCreation(alias, cause) => ErrorView::LinkCreation(alias@, cause@),
            Error::LinkAlreadyExists(alias) => ErrorView::LinkAlreadyExists(alias@),
            Error::LinkUpdate(alias, cause) => ErrorView::LinkUpdate(alias@, cause@),
            Error::LinkRemoval(alias, cause) => ErrorView::LinkRemoval(alias@, cause@),
            Error::AliasExists(alias) => ErrorView::AliasExists(alias@),
        }
    }
}

impl ErrorView {
    /// The text shown to the user for this error.
    pub open spec fn message(self) -> Seq<char> {
        match self {
            ErrorView::ProjectDirCreation(cause) => "Failed to create project directory: "@ + cause,
            ErrorView::ConfigRead(cause) => "Failed to read config file: "@ + cause,
            ErrorView::ConfigWrite(cause) => "Error writing config data: "@ + cause,
            ErrorView::ConfigParse(cause) => "Failed to parse config file: "@ + cause,
            ErrorView::ConfigSerialize(cause) => "Failed to serialize config data: "@ + cause,
            ErrorView::LinkCreation(alias, cause) => "Failed to create link for alias '"@ + alias
                + "': "@ + cause,
            ErrorView::LinkAlreadyExists(alias) => "Alias '"@ + alias + "' already exists"@,
            ErrorView::LinkUpdate(alias, cause) => "Failed to update link for alias '"@ + alias
                + "': "@ + cause,
            ErrorView::LinkRemoval(alias, cause) => "Failed to remove link for alias '"@ + alias
                + "': "@ + cause,
            ErrorView::AliasExists(alias) => "Alias '"@ + alias + "' is already defined"@,
        }
    }
}

/// `head` followed by `tail`.
fn join2(head: &str, tail: &str) -> (text: String)
    ensures
        text@ == head@ + tail@,
{
    let mut text = String::from_str(head);
    text.append(tail);
    text
}

/// The four pieces one after the other.
fn join4(first: &str, second: &str, third: &str, fourth: &str) -> (text: String)
    ensures
        text@ == first@ + second@ + third@ + fourth@,
{
    let mut text = String::from_str(first);
    text.append(second);
    text.append(third);
    text.append(fourth);
    text
}

impl Error {
    /// The text shown to the user for this error.
    pub fn message(&self) -> (text: String)
        ensures
            text@ == self@.message(),
    {
        match self {
            Error::ProjectDirCreation(cause) => join2(
                "Failed to create project directory: ",
                cause.as_str(),
            ),
            Error::ConfigRead(cause) => join2("Failed to read config file: ", cause.as_str()),
            Error::ConfigWrite(cause) => join2("Error writing config data: ", cause.as_str()),
            Error::ConfigParse(cause) => join2("Failed to parse config file: ", cause.as_str()),
            Error::ConfigSerialize(cause) => join2(
                "Failed to serialize config data: ",
                cause.as_str(),
            ),
            Error::LinkCreation(alias, cause) => join4(
                "Failed to create link for alias '",
                alias.as_str(),
                "': ",
                cause.as_str(),
            ),
            Error::LinkAlreadyExists(alias) => {
                let mut text = join2("Alias '", alias.as_str());
                text.append("' already exists");
                text
            },
            Error::LinkUpdate(alias, cause) => join4(
                "Failed to update link for alias '",
                alias.as_str(),
                "': ",
                cause.as_str(),
            ),
            Error::LinkRemoval(alias, cause) => join4(
                "Failed to remove link for alias '",
                alias.as_str(),
                "': ",
                cause.as_str(),
            ),
            Error::AliasExists(alias) => {
                let mut text = join2("Alias '", alias.as_str());
                text.append("' is already defined");
                text
            },
        }
    }
}

} // verus!
