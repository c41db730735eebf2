//! The editor's state and how it answers to what happens: the decisions,
//! without the windows, files and timers that carry them out.

use crate::explorer::{NodeType, TreeNode};
use crate::text::same_text;
use vstd::prelude::*;
use vstd::string::StringExecFns;

verus! {

/// `std::io::ErrorKind`, carried as it comes.
#[verifier::external_type_specification]
#[verifier::external_body]
pub struct ExErrorKind(std::io::ErrorKind);

/// What can go wrong around the editor.
#[derive(Debug)]
pub enum Error {
    DialogClosed,
    IoError(std::io::ErrorKind),
}

/// The kinds of file that the editor highlights.
#[derive(Debug, Clone, Copy, PartialEq, Eq, Structural)]
pub enum FileType {
    PlainText,
    AsciiDoc,
    Markdown,
}

impl FileType {
    /// The extension that stands for the kind.
    pub open spec fn extension(self) -> Seq<char> {
        match self {
            FileType::AsciiDoc => "adoc"@,
            FileType::Markdown => "md"@,
            FileType::PlainText => "txt"@,
        }
    }

    /// The kind of a file with the given extension: AsciiDoc for `adoc`,
    /// Markdown for `md`, plain text for any other and for none.
    pub open spec fn of_extension(extension: Option<Seq<char>>) -> FileType {
        match extension {
            Some(ext) => if ext == "adoc"@ {
                FileType::AsciiDoc
            } else if ext == "md"@ {
                FileType::Markdown
            } else {
                FileType::PlainText
            },
            None => FileType::PlainText,
        }
    }

    /// The extension that stands for the kind.
    pub fn as_str(&self) -> (extension: &'static str)
        ensures
            extension@ == self.extension(),
    {
        match self {
            FileType::AsciiDoc => "adoc",
            FileType::Markdown => "md",
            _ => "txt",
        }
    }

    /// The kind of a file with the given extension.
    pub fn from_extension(extension: Option<&str>) -> (kind: FileType)
        ensures
            kind == FileType::of_extension(
                match extension {
                    Some(ext) => Some(ext@),
                    None => None,
                },
            ),
    {
        match extension {
            Some(ext) => {
                if same_text(ext, "adoc") {
                    FileType::AsciiDoc
                } else if same_text(ext, "md") {
                    FileType::Markdown
                } else {
                    FileType::PlainText
                }
            },
            None => FileType::PlainText,
        }
    }
}

/// The pictures that stand for the entries of the explorer.
#[derive(Debug, Clone, Copy, PartialEq, Eq, Structural)]
pub enum Icon {
    FolderOpen,
    FolderClosed,
    MDFile,
    ADocFile,
    GenericFile,
}

impl Icon {
    /// The picture of an entry below the root: by its extension for a file,
    /// a closed folder for anything else.
    pub open spec fn of_entry(entry_type: NodeType, extension: Option<Seq<char>>) -> Icon {
        match entry_type {
            NodeType::File => match extension {
                Some(ext) => if ext == "md"@ {
                    Icon::MDFile
                } else if ext == "adoc"@ {
                    Icon::ADocFile
                } else {
                    Icon::GenericFile
                },
                None => Icon::GenericFile,
            },
            _ => Icon::FolderClosed,
        }
    }

    /// The picture of an entry below the root.
    pub fn for_entry(entry_type: NodeType, extension: Option<&str>) -> (icon: Icon)
        ensures
            icon == Icon::of_entry(
                entry_type,
                match extension {
                    Some(ext) => Some(ext@),
                    None => None,
                },
            ),
    {
        match entry_type {
            NodeType::File => match extension {
                Some(ext) => {
                    if same_text(ext, "md") {
                        Icon::MDFile
                    } else if same_text(ext, "adoc") {
                        Icon::ADocFile
                    } else {
                        Icon::GenericFile
                    }
                },
                None => Icon::GenericFile,
            },
            _ => Icon::FolderClosed,
        }
    }
}

/// How a notice ended.
#[derive(Debug, Clone, Copy, PartialEq, Eq, Structural)]
pub enum ToastLevel {
    Success,
    Fail,
}

/// A notice in the status bar.
#[derive(Debug, PartialEq, Eq)]
pub enum Toast {
    Fail(String),
    Success(String),
}

impl Toast {
    /// The words of the notice.
    pub open spec fn message(self) -> Seq<char> {
        match self {
            Toast::Success(m) => m@,
            Toast::Fail(m) => m@,
        }
    }

    /// How the notice ended.
    pub open spec fn level(self) -> ToastLevel {
        match self {
            Toast::Success(_) => ToastLevel::Success,
            Toast::Fail(_) => ToastLevel::Fail,
        }
    }

    /// The colour in which the notice is written.
    pub open spec fn colour(self) -> Seq<char> {
        match self {
            Toast::Success(_) => "#22c55e"@,
            Toast::Fail(_) => "#e11d48"@,
        }
    }

    /// A notice with the given words.
    pub fn new(message: String, level: ToastLevel) -> (toast: Toast)
        ensures
            toast.message() == message@,
            toast.level() == level,
    {
        match level {
            ToastLevel::Success => Toast::Success(message),
            _ => Toast::Fail(message),
        }
    }

    /// The words of the notice.
    pub fn to_string(&self) -> (message: &String)
        ensures
            message@ == self.message(),
    {
        match self {
            Toast::Success(m) => m,
            Toast::Fail(m) => m,
        }
    }

    /// The colour in which the notice is written.
    pub fn color(&self) -> (code: &'static str)
        ensures
            code@ == self.colour(),
    {
        match self {
            Toast::Success(_) => "#22c55e",
            Toast::Fail(_) => "#e11d48",
        }
    }
}

/// The character of a decimal digit.
pub open spec fn digit_char(digit: nat) -> char {
    if digit == 0 {
        '0'
    } else if digit == 1 {
        '1'
    } else if digit == 2 {
        '2'
    } else if digit == 3 {
        '3'
    } else if digit == 4 {
        '4'
    } else if digit == 5 {
        '5'
    } else if digit == 6 {
        '6'
    } else if digit == 7 {
        '7'
    } else if digit == 8 {
        '8'
    } else {
        '9'
    }
}

/// A number written in decimal digits, without leading zeros.
pub open spec fn decimal_text(number: nat) -> Seq<char>
    decreases number,
{
    if number < 10 {
        seq![digit_char(number)]
    } else {
        decimal_text(number / 10).push(digit_char(number % 10))
    }
}

/// A position as the status bar shows it: line and column counted from 1,
/// with a colon between them.
pub open spec fn position_text(line: nat, column: nat) -> Seq<char> {
    decimal_text(line + 1) + seq![':'] + decimal_text(column + 1)
}

/// One decimal digit as text.
pub fn digit(value: u8) -> (text: &'static str)
    requires
        value < 10,
    ensures
        text@ == seq![digit_char(value as nat)],
{
    proof {
        reveal_strlit("0");
        reveal_strlit("1");
        reveal_strlit("2");
        reveal_strlit("3");
        reveal_strlit("4");
        reveal_strlit("5");
        reveal_strlit("6");
        reveal_strlit("7");
        reveal_strlit("8");
        reveal_strlit("9");
    }
    let text = if value == 0 {
        "0"
    } else if value == 1 {
        "1"
    } else if value == 2 {
        "2"
    } else if value == 3 {
        "3"
    } else if value == 4 {
        "4"
    } else if value == 5 {
        "5"
    } else if value == 6 {
        "6"
    } else if value == 7 {
        "7"
    } else if value == 8 {
        "8"
    } else {
        "9"
    };
    assert(text@ =~= seq![digit_char(value as nat)]);
    text
}

/// A number written in decimal digits.
pub fn decimal(number: u128) -> (text: String)
    ensures
        text@ == decimal_text(number as nat),
    decreases number,
{
    if number < 10 {
        String::from_str(digit(number as u8))
    } else {
        let mut text = decimal(number / 10);
        let last = digit((number % 10) as u8);
        text.append(last);
        assert(text@ =~= decimal_text(number as nat));
        text
    }
}

/// What the editor knows of its buffer and its surroundings.
#[derive(Debug)]
pub struct Model {
    /// The directory of the workspace.
    pub cwd: String,
    /// The file in the buffer, once one is open.
    pub file: Option<std::path::PathBuf>,
    /// The line of the cursor, counted from 0.
    pub ln: usize,
    /// The column of the cursor, counted from 0.
    pub col: usize,
    pub word_wrap: bool,
    pub loading: bool,
    /// Whether the buffer holds changes that are not saved.
    pub modified: bool,
    pub extension: FileType,
    pub toast: Option<Toast>,
    pub explorer: Option<TreeNode>,
}

/// What has happened.
#[derive(Debug)]
pub enum Event {
    /// The buffer has carried out an action; the cursor now stands at
    /// `line` and `column`.
    CursorMoved { edit: bool, line: usize, column: usize },
    /// The workspace directory was looked for, and created where missing.
    SetupCompleted(Result<bool, Error>),
    /// A file was read into the buffer: its path and its extension.
    FileOpened(Result<(std::path::PathBuf, Option<String>), Error>),
    ToggleWrapped,
    /// The user asks to save the buffer.
    SaveFile,
    /// The buffer was written to the file shown as `shown`, or could not be,
    /// for the reason given.
    Written { shown: String, outcome: Result<(), String> },
    ShowToast(Result<Toast, Error>),
    HideToast,
    /// The workspace directory was walked.
    OpenDir(Result<TreeNode, Error>),
}

/// What the surroundings are to do next.
#[derive(Debug, PartialEq, Eq)]
pub enum Action {
    Nothing,
    /// Open the file `readme` and walk `directory`.
    OpenWorkspace { readme: String, directory: String },
    /// Write the buffer to the open file.
    WriteFile,
    /// Show the notice.
    Notify(Toast),
    /// Hide the notice after so many seconds.
    HideToastAfter(u64),
}

/// The mathematical value of an [`Action`].
pub enum Reply {
    Nothing,
    OpenWorkspace { readme: Seq<char>, directory: Seq<char> },
    WriteFile,
    Notify { level: ToastLevel, message: Seq<char> },
    HideToastAfter(nat),
}

impl View for Action {
    type V = Reply;

    open spec fn view(&self) -> Reply {
        match self {
            Action::Nothing => Reply::Nothing,
            Action::OpenWorkspace { readme, directory } => Reply::OpenWorkspace {
                readme: readme@,
                directory: directory@,
            },
            Action::WriteFile => Reply::WriteFile,
            Action::Notify(toast) => Reply::Notify {
                level: toast.level(),
                message: toast.message(),
            },
            Action::HideToastAfter(seconds) => Reply::HideToastAfter(*seconds as nat),
        }
    }
}

/// For how many seconds a notice stays.
pub const TOAST_SECONDS: u64 = 3;

impl Model {
    /// The state in which the editor starts.
    pub open spec fn initial(self) -> bool {
        &&& self.file is None
        &&& self.ln == 0
        &&& self.col == 0
        &&& !self.word_wrap
        &&& self.loading
        &&& !self.modified
        &&& self.extension == FileType::PlainText
        &&& self.toast is None
        &&& self.explorer is None
    }

    /// The state after `event`.
    pub open spec fn after(self, event: Event) -> Model {
        match event {
            Event::CursorMoved { edit, line, column } => Model {
                modified: self.modified || edit,
                ln: line,
                col: column,
                ..self
            },
            Event::SetupCompleted(Ok(_)) => Model { loading: false, ..self },
            Event::FileOpened(Ok((path, extension))) => Model {
                extension: FileType::of_extension(
                    match extension {
                        Some(ext) => Some(ext@),
                        None => None,
                    },
                ),
                file: Some(path),
                ..self
            },
            Event::ToggleWrapped => Model { word_wrap: !self.word_wrap, ..self },
            Event::Written { shown, outcome: Ok(_) } => Model { modified: false, ..self },
            Event::ShowToast(Ok(toast)) => Model { toast: Some(toast), ..self },
            Event::HideToast => Model { toast: None, ..self },
            Event::OpenDir(Ok(tree)) => Model { explorer: Some(tree), ..self },
            _ => self,
        }
    }

    /// What the surroundings are to do after `event`.
    pub open spec fn reply(self, event: Event) -> Reply {
        match event {
            Event::SetupCompleted(Ok(_)) => Reply::OpenWorkspace {
                readme: self.cwd@ + "/README.md"@,
                directory: self.cwd@,
            },
            Event::SaveFile => Reply::WriteFile,
            Event::Written { shown, outcome: Ok(_) } => Reply::Notify {
                level: ToastLevel::Success,
                message: "saved file "@ + shown@,
            },
            Event::Written { shown, outcome: Err(why) } => Reply::Notify {
                level: ToastLevel::Fail,
                message: "save failed: "@ + why@,
            },
            Event::ShowToast(Ok(_)) => Reply::HideToastAfter(TOAST_SECONDS as nat),
            _ => Reply::Nothing,
        }
    }

    /// The state in which the editor starts, in the workspace `cwd`.
    pub fn new(cwd: String) -> (model: Model)
        ensures
            model.cwd == cwd,
            model.initial(),
    {
        Model {
            cwd,
            file: None,
            ln: 0,
            col: 0,
            word_wrap: false,
            loading: true,
            modified: false,
            extension: FileType::PlainText,
            toast: None,
            explorer: None,
        }
    }

    /// The line and the column of the cursor, counted from 0.
    pub fn position(&self) -> (at: (usize, usize))
        ensures
            at == (self.ln, self.col),
    {
        (self.ln, self.col)
    }

    /// The position of the cursor as the status bar shows it.
    pub fn render_pos(&self) -> (shown: String)
        ensures
            shown@ == position_text(self.ln as nat, self.col as nat),
    {
        let mut shown = decimal(self.ln as u128 + 1);
        shown.append(":");
        let column = decimal(self.col as u128 + 1);
        shown.append(column.as_str());
        proof {
            reveal_strlit(":");
            assert(":"@ =~= seq![':']);
        }
        shown
    }

    /// Takes in what has happened and says what is to be done next. Saving
    /// needs an open file.
    pub fn update(&mut self, event: Event) -> (action: Action)
        requires
            event is SaveFile ==> old(self).file is Some,
        ensures
            *final(self) == old(self).after(event),
            action@ == old(self).reply(event),
    {
        match event {
            Event::CursorMoved { edit, line, column } => {
                self.modified = self.modified || edit;
                self.ln = line;
                self.col = column;
                Action::Nothing
            },
            Event::SetupCompleted(Ok(_)) => {
                self.loading = false;
                let directory = self.cwd.clone();
                let mut readme = self.cwd.clone();
                readme.append("/README.md");
                Action::OpenWorkspace { readme, directory }
            },
            Event::FileOpened(Ok((path, extension))) => {
                self.extension = match &extension {
                    Some(ext) => FileType::from_extension(Some(ext.as_str())),
                    None => FileType::from_extension(None),
                };
                self.file = Some(path);
                Action::Nothing
            },
            Event::ToggleWrapped => {
                self.word_wrap = !self.word_wrap;
                Action::Nothing
            },
            Event::SaveFile => Action::WriteFile,
            Event::Written { shown, outcome: Ok(_) } => {
                self.modified = false;
                let mut message = String::from_str("saved file ");
                message.append(shown.as_str());
                Action::Notify(Toast::new(message, ToastLevel::Success))
            },
            Event::Written { shown, outcome: Err(why) } => {
                let mut message = String::from_str("save failed: ");
                message.append(why.as_str());
                Action::Notify(Toast::new(message, ToastLevel::Fail))
            },
            Event::ShowToast(Ok(toast)) => {
                self.toast = Some(toast);
                Action::HideToastAfter(TOAST_SECONDS)
            },
            Event::HideToast => {
                self.toast = None;
                Action::Nothing
            },
            Event::OpenDir(Ok(tree)) => {
                self.explorer = Some(tree);
                Action::Nothing
            },
            _ => Action::Nothing,
        }
    }
}

} // verus!
