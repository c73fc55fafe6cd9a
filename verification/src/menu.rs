//! The file menu: a choice between creating and editing, a field for the
//! file's name, and the request that the two answers amount to.
use crate::policy::{Promptable, SelectionPicker, StaticWriter};
use crate::querier::{ends_run, lines_of, outcome_text, yielded_by, PromptError, Querier};
use vstd::prelude::*;

verus! {

/// What is to be done with the named file.
#[derive(Debug, Clone, Copy, PartialEq, Eq, Structural)]
pub enum FileGrab {
    /// Create it, or empty it if it is there.
    New,
    /// Open it as it is, for reading.
    Existing,
}

/// The intent that the answer `choice` to the file menu stands for.
pub open spec fn intent_of(choice: Seq<char>) -> Option<FileGrab> {
    if choice == "create"@ {
        Some(FileGrab::New)
    } else if choice == "edit"@ {
        Some(FileGrab::Existing)
    } else {
        None
    }
}

impl FileGrab {
    /// The intent behind an answer to the file menu.
    pub fn from_choice(choice: &String) -> (grab: Option<FileGrab>)
        ensures
            grab == intent_of(choice@),
    {
        if *choice == "create".to_owned() {
            Some(FileGrab::New)
        } else if *choice == "edit".to_owned() {
            Some(FileGrab::Existing)
        } else {
            None
        }
    }
}

/// The one file-system call that answers a request for a file.
#[derive(Debug, PartialEq, Eq)]
pub enum FileRequest {
    /// Create the file of this name for writing, emptying one that exists.
    Create(String),
    /// Open the file of this name for reading.
    Open(String),
}

/// What a request asks for: the intent, and the characters of the name.
pub open spec fn request_of(request: FileRequest) -> (FileGrab, Seq<char>) {
    match request {
        FileRequest::Create(path) => (FileGrab::New, path@),
        FileRequest::Open(path) => (FileGrab::Existing, path@),
    }
}

/// What a request asks for, or the error unchanged.
pub open spec fn request_text(result: Result<FileRequest, PromptError>) -> Result<
    (FileGrab, Seq<char>),
    PromptError,
> {
    match result {
        Ok(request) => Ok(request_of(request)),
        Err(reason) => Err(reason),
    }
}

/// Hands out files: new ones and those that are there already.
pub struct FileCommencer {}

impl FileCommencer {
    /// A resolver with nothing to remember.
    pub fn new() -> FileCommencer {
        FileCommencer {  }
    }

    /// The call that `grab` asks for on the file `name`.
    pub fn grab(&self, name: String, grab: FileGrab) -> (request: FileRequest)
        ensures
            request_of(request) == (grab, name@),
    {
        match grab {
            FileGrab::New => FileRequest::Create(name),
            FileGrab::Existing => FileRequest::Open(name),
        }
    }
}

/// The two prompts that come before any work on a file.
pub struct DirectoryPeaker {
    pub menu: SelectionPicker,
    pub file_namer: StaticWriter,
}

impl DirectoryPeaker {
    /// The prompts are the ones of the file menu: a choice between `create`
    /// and `edit`, and a field for the name, each with its instruction.
    pub open spec fn is_file_menu(&self) -> bool {
        &&& self.menu.candidates() == seq!["create"@, "edit"@]
        &&& self.menu.label() == "Write 'create' or 'edit'"@
        &&& self.file_namer.label() == "Write filename"@
    }

    /// The file menu together with the field for the file's name.
    pub fn new() -> (peaker: DirectoryPeaker)
        ensures
            peaker.is_file_menu(),
    {
        DirectoryPeaker { menu: DirectoryPeaker::menu(), file_namer: DirectoryPeaker::file_namer() }
    }

    /// The menu that asks whether to create a file or to edit one.
    pub fn menu() -> (menu: SelectionPicker)
        ensures
            menu.candidates() == seq!["create"@, "edit"@],
            menu.label() == "Write 'create' or 'edit'"@,
    {
        let options: Box<[&'static str]> = Box::new(["create", "edit"]);
        let menu = SelectionPicker::new(options, "Write 'create' or 'edit'");
        assert(menu.candidates() =~= seq!["create"@, "edit"@]);
        menu
    }

    /// The field that asks which file is meant.
    pub fn file_namer() -> (namer: StaticWriter)
        ensures
            namer.label() == "Write filename"@,
    {
        StaticWriter::new("Write filename")
    }
}

/// A finished pass through the file menu: `asked` are the lines read by
/// the prompt for the intent, `named` those read by the prompt for the name,
/// which runs second and only after an intent was chosen. It ends well with
/// the intent that the accepted choice names and with the accepted name. It
/// ends badly when the first prompt times out, and then no name is asked
/// for, or when a choice was made and the second prompt times out.
pub open spec fn ends_assembly(
    peaker: &DirectoryPeaker,
    limit: Option<usize>,
    asked: Seq<Seq<char>>,
    named: Seq<Seq<char>>,
    result: Result<(FileGrab, Seq<char>), PromptError>,
) -> bool {
    match result {
        Ok((grab, path)) => {
            &&& asked.len() > 0
            &&& ends_run(&peaker.menu, limit, asked, Ok(asked.last()))
            &&& intent_of(asked.last()) == Some(grab)
            &&& ends_run(&peaker.file_namer, limit, named, Ok(path))
        },
        Err(reason) => {
            ||| {
                &&& named.len() == 0
                &&& ends_run(&peaker.menu, limit, asked, Err(reason))
            }
            ||| {
                &&& asked.len() > 0
                &&& ends_run(&peaker.menu, limit, asked, Ok(asked.last()))
                &&& ends_run(&peaker.file_namer, limit, named, Err(reason))
            }
        },
    }
}

/// The application: a querier over the file menu.
pub struct Ostrich {
    pub querier: Querier,
    pub directory_peaker: DirectoryPeaker,
}

impl Ostrich {
    /// Runs the application: with a querier without a limit it asks for the
    /// intent, then for the name, and returns the request for the file.
    pub fn new<S, F>(show: S, get_input: F) -> (result: Result<
        FileRequest,
        PromptError,
    >) where S: Fn(String) + Copy, F: Fn() -> String + Copy
        requires
            forall|line: String|
                line@ == "Write 'create' or 'edit'"@ || line@ == "Write filename"@
                    ==> call_requires(show, (line,)),
            call_requires(get_input, ()),
        ensures
            exists|peaker: DirectoryPeaker, asked: Seq<String>, named: Seq<String>|
                peaker.is_file_menu() && yielded_by(&get_input, asked) && yielded_by(
                    &get_input,
                    named,
                ) && #[trigger] ends_assembly(
                    &peaker,
                    Some(usize::MAX),
                    lines_of(asked),
                    lines_of(named),
                    request_text(result),
                ),
    {
        let ostrich = Ostrich::with_querier(Querier::new());
        let result = ostrich.file_request(show, get_input);
        proof {
            let (asked, named) = choose|asked: Seq<String>, named: Seq<String>|
                yielded_by(&get_input, asked) && yielded_by(&get_input, named)
                    && #[trigger] ends_assembly(
                    &ostrich.directory_peaker,
                    Some(ostrich.querier.attempt_cap()),
                    lines_of(asked),
                    lines_of(named),
                    request_text(result),
                );
            assert(ends_assembly(
                &ostrich.directory_peaker,
                Some(usize::MAX),
                lines_of(asked),
                lines_of(named),
                request_text(result),
            ));
        }
        result
    }

    /// The application around `querier`, with the file menu's two prompts.
    pub fn with_querier(querier: Querier) -> (ostrich: Ostrich)
        ensures
            ostrich.querier == querier,
            ostrich.directory_peaker.is_file_menu(),
    {
        Ostrich { querier, directory_peaker: DirectoryPeaker::new() }
    }

    /// One pass through the file menu: asks for the intent until the answer
    /// is `create` or `edit`, then asks for the name until the answer is not
    /// empty, and returns the request that the two answers amount to: the
    /// intent that the first answer names, on the file that the second one
    /// names. When the first prompt times out the name is not asked for.
    pub fn file_request<S, F>(&self, show: S, get_input: F) -> (result: Result<
        FileRequest,
        PromptError,
    >) where S: Fn(String) + Copy, F: Fn() -> String + Copy
        requires
            self.directory_peaker.is_file_menu(),
            forall|line: String|
                line@ == self.directory_peaker.menu.label() || line@
                    == self.directory_peaker.file_namer.label() ==> call_requires(show, (line,)),
            call_requires(get_input, ()),
        ensures
            exists|asked: Seq<String>, named: Seq<String>|
                yielded_by(&get_input, asked) && yielded_by(&get_input, named)
                    && #[trigger] ends_assembly(
                    &self.directory_peaker,
                    Some(self.querier.attempt_cap()),
                    lines_of(asked),
                    lines_of(named),
                    request_text(result),
                ),
    {
        let ghost cap = Some(self.querier.attempt_cap());
        let ghost nothing: Seq<String> = Seq::empty();
        let first = self.file_menu(show, get_input);
        let ghost asked = choose|calls: Seq<String>|
            yielded_by(&get_input, calls) && #[trigger] ends_run(
                &self.directory_peaker.menu,
                cap,
                lines_of(calls),
                outcome_text(first),
            );
        let choice = match first {
            Ok(choice) => choice,
            Err(reason) => {
                let result = Err(reason);
                assert(ends_assembly(
                    &self.directory_peaker,
                    cap,
                    lines_of(asked),
                    lines_of(nothing),
                    request_text(result),
                ));
                return result;
            },
        };
        proof {
            lemma_menu_answers_name_intents(&self.directory_peaker, choice@);
        }
        let intent = FileGrab::from_choice(&choice).unwrap();
        let second = self.file_name(show, get_input);
        let ghost named = choose|calls: Seq<String>|
            yielded_by(&get_input, calls) && #[trigger] ends_run(
                &self.directory_peaker.file_namer,
                cap,
                lines_of(calls),
                outcome_text(second),
            );
        let result = match second {
            Ok(name) => Ok(FileCommencer::new().grab(name, intent)),
            Err(reason) => Err(reason),
        };
        assert(ends_assembly(
            &self.directory_peaker,
            cap,
            lines_of(asked),
            lines_of(named),
            request_text(result),
        ));
        result
    }

    /// Asks whether to create a file or to edit one, until the answer is
    /// `create` or `edit`.
    pub fn file_menu<S, F>(&self, show: S, get_input: F) -> (result: Result<
        String,
        PromptError,
    >) where S: Fn(String), F: Fn() -> String
        requires
            forall|line: String|
                line@ == self.directory_peaker.menu.label() ==> call_requires(show, (line,)),
            call_requires(get_input, ()),
        ensures
            exists|calls: Seq<String>|
                yielded_by(&get_input, calls) && #[trigger] ends_run(
                    &self.directory_peaker.menu,
                    Some(self.querier.attempt_cap()),
                    lines_of(calls),
                    outcome_text(result),
                ),
    {
        self.querier.prompt(&self.directory_peaker.menu, show, get_input)
    }

    /// Asks for the name of the file, until the answer is not empty.
    pub fn file_name<S, F>(&self, show: S, get_input: F) -> (result: Result<
        String,
        PromptError,
    >) where S: Fn(String), F: Fn() -> String
        requires
            forall|line: String|
                line@ == self.directory_peaker.file_namer.label() ==> call_requires(
                    show,
                    (line,),
                ),
            call_requires(get_input, ()),
        ensures
            exists|calls: Seq<String>|
                yielded_by(&get_input, calls) && #[trigger] ends_run(
                    &self.directory_peaker.file_namer,
                    Some(self.querier.attempt_cap()),
                    lines_of(calls),
                    outcome_text(result),
                ),
    {
        self.querier.prompt(&self.directory_peaker.file_namer, show, get_input)
    }
}

/// The file menu takes an answer exactly when the answer names an intent:
/// whatever its prompt returns can be turned into a request for a file.
pub proof fn lemma_menu_answers_name_intents(peaker: &DirectoryPeaker, raw: Seq<char>)
    requires
        peaker.is_file_menu(),
    ensures
        peaker.menu.accepts(raw) <==> intent_of(raw) is Some,
{
    let candidates = peaker.menu.candidates();
    assert(candidates[0] == "create"@);
    assert(candidates[1] == "edit"@);
}

} // verus!
