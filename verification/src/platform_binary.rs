use vstd::prelude::*;
use vstd::string::*;

use crate::error::{Error, ErrorView};

verus! {

/// The filesystem change that is owed to the link file of one alias.
#[derive(Debug, Clone, Copy, PartialEq, Eq, Structural)]
pub enum Action {
    /// The file must be created, and must not be there yet.
    Create,
    /// The file must be written, whether it is there or not.
    Update,
    /// The file must be deleted.
    Remove,
    /// Nothing is owed.
    Idle,
}

/// The family of operating systems that the link files are made for.
#[derive(Debug, Clone, Copy, PartialEq, Eq, Structural)]
pub enum Platform {
    /// Shell scripts, `.sh`.
    Posix,
    /// Batch files, `.bat`.
    Windows,
}

/// What the filesystem answered to one operation on a link file. A failure
/// carries the text of the operating system's message.
#[derive(Debug, PartialEq, Eq)]
pub enum IoOutcome {
    /// The operation was carried out.
    Done,
    /// The file was already there.
    AlreadyExists(String),
    /// The file, or its directory, was not there.
    NotFound(String),
    /// Any other failure.
    Failed(String),
}

/// The mathematical value of an [`IoOutcome`].
pub enum OutcomeView {
    Done,
    AlreadyExists(Seq<char>),
    NotFound(Seq<char>),
    Failed(Seq<char>),
}

impl View for IoOutcome {
    type V = OutcomeView;

    open spec fn view(&self) -> OutcomeView {
        match self {
            IoOutcome::Done => OutcomeView::Done,
            IoOutcome::AlreadyExists(cause) => OutcomeView::AlreadyExists(cause@),
            IoOutcome::NotFound(cause) => OutcomeView::NotFound(cause@),
            IoOutcome::Failed(cause) => OutcomeView::Failed(cause@),
        }
    }
}

/// One operation on one link file, for the caller to carry out.
#[derive(Debug, PartialEq, Eq)]
pub struct Operation {
    /// What to do with the file: never [`Action::Idle`].
    pub action: Action,
    /// The alias that the file belongs to.
    pub alias: String,
    /// The file's name inside the directory of link files.
    pub file_name: String,
    /// The text of the link file of this alias.
    pub contents: String,
}

/// The mathematical value of an [`Operation`].
pub struct OperationView {
    pub action: Action,
    pub alias: Seq<char>,
    pub file_name: Seq<char>,
    pub contents: Seq<char>,
}

impl View for Operation {
    type V = OperationView;

    open spec fn view(&self) -> OperationView {
        OperationView {
            action: self.action,
            alias: self.alias@,
            file_name: self.file_name@,
            contents: self.contents@,
        }
    }
}

/// The extension of a link file's name.
pub open spec fn extension_of(platform: Platform) -> Seq<char> {
    match platform {
        Platform::Windows => ".bat"@,
        Platform::Posix => ".sh"@,
    }
}

/// The name of the link file of `alias`: the alias followed by the extension.
pub open spec fn file_name_of(alias: Seq<char>, platform: Platform) -> Seq<char> {
    alias + extension_of(platform)
}

/// The text of a link file that runs `cmd` with every argument it is given.
pub open spec fn contents_of(cmd: Seq<char>, platform: Platform) -> Seq<char> {
    match platform {
        Platform::Windows => "@echo off\necho.\n"@ + cmd + " %*"@,
        Platform::Posix => "#!/bin/sh\nexec "@ + cmd + " \"$@\""@,
    }
}

/// What is common to the links of every platform: from an alias and a command
/// to the name and the text of the link file.
pub trait Link {
    /// The alias, as a sequence of characters.
    spec fn alias_text(&self) -> Seq<char>;

    /// The command, as a sequence of characters.
    spec fn cmd_text(&self) -> Seq<char>;

    /// Getter for the alias.
    fn alias(&self) -> (alias: &str)
        ensures
            alias@ == self.alias_text(),
    ;

    /// Getter for the command.
    fn cmd(&self) -> (cmd: &str)
        ensures
            cmd@ == self.cmd_text(),
    ;

    /// The extension of the link file.
    fn extension(&self, platform: Platform) -> (ext: &'static str)
        ensures
            ext@ == extension_of(platform),
    {
        match platform {
            Platform::Windows => ".bat",
            Platform::Posix => ".sh",
        }
    }

    /// The name of the link file inside the directory of link files. It does
    /// not depend on the command.
    fn file_name(&self, platform: Platform) -> (name: String)
        ensures
            name@ == file_name_of(self.alias_text(), platform),
    {
        let mut name = String::from_str(self.alias());
        name.append(self.extension(platform));
        name
    }

    /// The contents of the link file. They do not depend on the alias.
    fn contents(&self, platform: Platform) -> (text: String)
        ensures
            text@ == contents_of(self.cmd_text(), platform),
    {
        match platform {
            Platform::Windows => {
                let mut text = String::from_str("@echo off\necho.\n");
                text.append(self.cmd());
                text.append(" %*");
                text
            },
            Platform::Posix => {
                let mut text = String::from_str("#!/bin/sh\nexec ");
                text.append(self.cmd());
                text.append(" \"$@\"");
                text
            },
        }
    }
}

/// The link of one alias: the command it stands for, whether its file was
/// found on disk when last looked for, and the change owed to that file.
#[derive(Debug)]
pub struct PlatformBinary {
    /// Whether the link file was at its expected path when last looked for.
    exists: bool,
    /// The action to be taken for the link file, see [`Action`].
    action: Action,
    /// The alias of the link.
    alias: String,
    /// The command to run in place of the alias.
    cmd: String,
}

/// The mathematical value of a [`PlatformBinary`].
pub struct LinkView {
    pub exists: bool,
    pub action: Action,
    pub alias: Seq<char>,
    pub cmd: Seq<char>,
}

impl LinkView {
    /// The operation owed to the link file.
    pub open spec fn operation(self, platform: Platform) -> OperationView {
        OperationView {
            action: self.action,
            alias: self.alias,
            file_name: file_name_of(self.alias, platform),
            contents: contents_of(self.cmd, platform),
        }
    }

    /// The error that `outcome` amounts to, when it is the filesystem's answer
    /// to the operation owed to this link. A file that is already gone is no
    /// failure of a removal; a file that is already there fails a creation.
    pub open spec fn failure(self, outcome: OutcomeView) -> Option<ErrorView> {
        match self.action {
            Action::Idle => None,
            Action::Create => match outcome {
                OutcomeView::Done => None,
                OutcomeView::AlreadyExists(_) => Some(ErrorView::LinkAlreadyExists(self.alias)),
                OutcomeView::NotFound(cause) => Some(ErrorView::LinkCreation(self.alias, cause)),
                OutcomeView::Failed(cause) => Some(ErrorView::LinkCreation(self.alias, cause)),
            },
            Action::Update => match outcome {
                OutcomeView::Done => None,
                OutcomeView::AlreadyExists(cause) => Some(
                    ErrorView::LinkUpdate(self.alias, cause),
                ),
                OutcomeView::NotFound(cause) => Some(ErrorView::LinkUpdate(self.alias, cause)),
                OutcomeView::Failed(cause) => Some(ErrorView::LinkUpdate(self.alias, cause)),
            },
            Action::Remove => match outcome {
                OutcomeView::Done => None,
                OutcomeView::NotFound(_) => None,
                OutcomeView::AlreadyExists(cause) => Some(
                    ErrorView::LinkRemoval(self.alias, cause),
                ),
                OutcomeView::Failed(cause) => Some(ErrorView::LinkRemoval(self.alias, cause)),
            },
        }
    }

    /// The link after `outcome` was the filesystem's answer to the operation
    /// owed to it. A failure changes nothing. A file that was created or
    /// written is there and nothing more is owed to it. A file that was
    /// removed is gone; the action stays [`Action::Remove`], which tells the
    /// owner of the link to drop it.
    pub open spec fn performed(self, outcome: OutcomeView) -> LinkView {
        if self.failure(outcome) is Some {
            self
        } else {
            match self.action {
                Action::Idle => self,
                Action::Create => LinkView { exists: true, action: Action::Idle, ..self },
                Action::Update => LinkView { exists: true, action: Action::Idle, ..self },
                Action::Remove => LinkView { exists: false, ..self },
            }
        }
    }
}

impl View for PlatformBinary {
    type V = LinkView;

    closed spec fn view(&self) -> LinkView {
        LinkView { exists: self.exists, action: self.action, alias: self.alias@, cmd: self.cmd@ }
    }
}

impl PlatformBinary {
    /// A link for `alias` that runs `cmd`, with `action` owed to its file.
    /// `found` says whether the file is on disk.
    pub fn new(alias: String, cmd: String, action: Action, found: bool) -> (link: Self)
        ensures
            link@ == (LinkView { exists: found, action: action, alias: alias@, cmd: cmd@ }),
    {
        let mut link = PlatformBinary { alias, cmd, exists: false, action };
        link.validate(found);
        link
    }

    /// Records whether the link file was found on disk.
    pub fn validate(&mut self, found: bool)
        ensures
            final(self)@ == (LinkView { exists: found, ..old(self)@ }),
    {
        self.exists = found;
    }

    /// Whether the link file was on disk when last looked for.
    pub fn is_present(&self) -> (found: bool)
        ensures
            found == self@.exists,
    {
        self.exists
    }

    /// Whether this is the link of `alias`.
    pub fn is_for(&self, alias: &String) -> (same: bool)
        ensures
            same == (self@.alias == alias@),
    {
        self.alias == *alias
    }

    /// The action owed to the link file.
    pub fn action(&self) -> (action: Action)
        ensures
            action == self@.action,
    {
        self.action
    }

    /// Sets the action owed to the link file.
    pub fn set_action(&mut self, action: Action)
        ensures
            final(self)@ == (LinkView { action: action, ..old(self)@ }),
    {
        self.action = action;
    }

    /// The operation that the owed action asks of the filesystem, if any.
    pub fn operation(&self, platform: Platform) -> (owed: Option<Operation>)
        ensures
            self@.action == Action::Idle ==> owed is None,
            self@.action != Action::Idle ==> owed is Some && owed->0@ == self@.operation(platform),
    {
        match self.action {
            Action::Idle => None,
            action => Some(
                Operation {
                    action,
                    alias: self.alias.clone(),
                    file_name: self.file_name(platform),
                    contents: self.contents(platform),
                },
            ),
        }
    }

    /// Takes the filesystem's answer to the operation that the owed action
    /// asked for, and settles the action accordingly.
    pub fn perform_action(&mut self, outcome: &IoOutcome) -> (result: Result<(), Error>)
        ensures
            final(self)@ == old(self)@.performed(outcome@),
            match result {
                Ok(()) => old(self)@.failure(outcome@) is None,
                Err(error) => old(self)@.failure(outcome@) == Some(error@),
            },
    {
        match self.action {
            Action::Idle => Ok(()),
            Action::Create => self.create_link(outcome),
            Action::Update => self.update_link(outcome),
            Action::Remove => self.remove_link(outcome),
        }
    }

    /// Settles a creation: a file that is already there is an error of its own.
    fn create_link(&mut self, outcome: &IoOutcome) -> (result: Result<(), Error>)
        requires
            old(self)@.action == Action::Create,
        ensures
            final(self)@ == old(self)@.performed(outcome@),
            match result {
                Ok(()) => old(self)@.failure(outcome@) is None,
                Err(error) => old(self)@.failure(outcome@) == Some(error@),
            },
    {
        match outcome {
            IoOutcome::Done => {
                self.exists = true;
                self.action = Action::Idle;
                Ok(())
            },
            IoOutcome::AlreadyExists(_) => Err(Error::LinkAlreadyExists(self.alias.clone())),
            IoOutcome::NotFound(cause) => Err(
                Error::LinkCreation(self.alias.clone(), cause.clone()),
            ),
            IoOutcome::Failed(cause) => Err(Error::LinkCreation(self.alias.clone(), cause.clone())),
        }
    }

    /// Settles a write.
    fn update_link(&mut self, outcome: &IoOutcome) -> (result: Result<(), Error>)
        requires
            old(self)@.action == Action::Update,
        ensures
            final(self)@ == old(self)@.performed(outcome@),
            match result {
                Ok(()) => old(self)@.failure(outcome@) is None,
                Err(error) => old(self)@.failure(outcome@) == Some(error@),
            },
    {
        match outcome {
            IoOutcome::Done => {
                self.exists = true;
                self.action = Action::Idle;
                Ok(())
            },
            IoOutcome::AlreadyExists(cause) => Err(
                Error::LinkUpdate(self.alias.clone(), cause.clone()),
            ),
            IoOutcome::NotFound(cause) => Err(Error::LinkUpdate(self.alias.clone(), cause.clone())),
            IoOutcome::Failed(cause) => Err(Error::LinkUpdate(self.alias.clone(), cause.clone())),
        }
    }

    /// Settles a removal: a file that was not there is as good as removed.
    fn remove_link(&mut self, outcome: &IoOutcome) -> (result: Result<(), Error>)
        requires
            old(self)@.action == Action::Remove,
        ensures
            final(self)@ == old(self)@.performed(outcome@),
            match result {
                Ok(()) => old(self)@.failure(outcome@) is None,
                Err(error) => old(self)@.failure(outcome@) == Some(error@),
            },
    {
        match outcome {
            IoOutcome::Done => {
                self.exists = false;
                Ok(())
            },
            IoOutcome::NotFound(_) => {
                self.exists = false;
                Ok(())
            },
            IoOutcome::AlreadyExists(cause) => Err(
                Error::LinkRemoval(self.alias.clone(), cause.clone()),
            ),
            IoOutcome::Failed(cause) => Err(Error::LinkRemoval(self.alias.clone(), cause.clone())),
        }
    }
}

impl Link for PlatformBinary {
    open spec fn alias_text(&self) -> Seq<char> {
        self@.alias
    }

    open spec fn cmd_text(&self) -> Seq<char> {
        self@.cmd
    }

    fn alias(&self) -> (alias: &str) {
        self.alias.as_str()
    }

    fn cmd(&self) -> (cmd: &str) {
        self.cmd.as_str()
    }
}

/// Link files with the same text run the same command.
pub proof fn lemma_contents_tell_commands_apart(
    first: Seq<char>,
    second: Seq<char>,
    platform: Platform,
)
    requires
        contents_of(first, platform) == contents_of(second, platform),
    ensures
        first == second,
{
    let head = match platform {
        Platform::Windows => "@echo off\necho.\n"@,
        Platform::Posix => "#!/bin/sh\nexec "@,
    };
    let tail = match platform {
        Platform::Windows => " %*"@,
        Platform::Posix => " \"$@\""@,
    };
    let one = head + first + tail;
    let other = head + second + tail;
    assert(one.len() == other.len());
    assert forall|i: int| 0 <= i < first.len() implies first[i] == second[i] by {
        assert(one[head.len() + i] == other[head.len() + i]);
    }
    assert(first =~= second);
}

/// Two aliases never share a link file.
pub proof fn lemma_file_names_tell_aliases_apart(
    first: Seq<char>,
    second: Seq<char>,
    platform: Platform,
)
    requires
        file_name_of(first, platform) == file_name_of(second, platform),
    ensures
        first == second,
{
    let tail = extension_of(platform);
    let one = first + tail;
    let other = second + tail;
    assert(one.len() == other.len());
    assert forall|i: int| 0 <= i < first.len() implies first[i] == second[i] by {
        assert(one[i] == other[i]);
    }
    assert(first =~= second);
}

} // verus!
