//! Acceptance policies: stateless rules that take or reject a raw line of
//! input, and carry the instruction shown to the user before each attempt.
use vstd::prelude::*;

verus! {

/// What a policy hands back for `raw`: the input itself when it is accepted,
/// nothing otherwise.
pub open spec fn selection<T: Promptable>(policy: &T, raw: Seq<char>) -> Option<Seq<char>> {
    if policy.accepts(raw) {
        Some(raw)
    } else {
        None
    }
}

/// The characters of an optional string.
pub open spec fn text_of(picked: Option<String>) -> Option<Seq<char>> {
    match picked {
        Some(text) => Some(text@),
        None => None,
    }
}

/// The characters of each string of `options`, in order.
pub open spec fn texts(options: Seq<&'static str>) -> Seq<Seq<char>> {
    Seq::new(options.len(), |i: int| options[i]@)
}

/// Something that can be put before a user: it describes what it wants and
/// decides whether a given answer is taken.
pub trait Promptable {
    /// Whether `raw` is an answer that this policy takes.
    spec fn accepts(&self, raw: Seq<char>) -> bool;

    /// The instruction that this policy shows.
    spec fn label(&self) -> Seq<char>;

    /// Takes `option` and hands it back unchanged, or rejects it.
    fn select(&self, option: String) -> (picked: Option<String>)
        ensures
            text_of(picked) == (if self.accepts(option@) {
                Some(option@)
            } else {
                None
            }),
    ;

    /// Renders the instruction as the line to be shown.
    fn describe(&self) -> (line: String)
        ensures
            line@ == self.label(),
    ;
}

/// A closed menu: only an answer equal to one of its candidates is taken.
pub struct SelectionPicker {
    options: Vec<String>,
    description: &'static str,
}

impl SelectionPicker {
    /// The candidates, in the order in which they were given.
    pub closed spec fn candidates(&self) -> Seq<Seq<char>> {
        Seq::new(self.options@.len(), |i: int| self.options@[i]@)
    }

    /// A menu over `options` that shows `description`.
    pub fn new(options: Box<[&'static str]>, description: &'static str) -> (picker: SelectionPicker)
        ensures
            picker.candidates() == texts(options@),
            picker.label() == description@,
    {
        let mut owned: Vec<String> = Vec::new();
        let mut i: usize = 0;
        while i < options.len()
            invariant
                i <= options@.len(),
                owned@.len() == i,
                forall|j: int| 0 <= j < i ==> owned@[j]@ == options@[j]@,
            decreases options@.len() - i,
        {
            let option: &str = options[i];
            owned.push(option.to_owned());
            i = i + 1;
        }
        let picker = SelectionPicker { options: owned, description };
        assert(picker.candidates() =~= texts(options@));
        picker
    }
}

impl Promptable for SelectionPicker {
    open spec fn accepts(&self, raw: Seq<char>) -> bool {
        self.candidates().contains(raw)
    }

    closed spec fn label(&self) -> Seq<char> {
        self.description@
    }

    fn select(&self, option: String) -> (picked: Option<String>)
        ensures
            text_of(picked) == (if self.candidates().contains(option@) {
                Some(option@)
            } else {
                None
            }),
    {
        let mut i: usize = 0;
        while i < self.options.len()
            invariant
                i <= self.options@.len(),
                forall|j: int| 0 <= j < i ==> self.candidates()[j] != option@,
            decreases self.options@.len() - i,
        {
            if self.options[i] == option {
                assert(self.candidates()[i as int] == option@);
                return Some(option);
            }
            i = i + 1;
        }
        None
    }

    fn describe(&self) -> (line: String) {
        self.description.to_owned()
    }
}

/// A free-text field: any answer with at least one character is taken.
pub struct StaticWriter {
    description: &'static str,
}

impl StaticWriter {
    /// A field that shows `description`.
    pub fn new(description: &'static str) -> (writer: StaticWriter)
        ensures
            writer.label() == description@,
    {
        StaticWriter { description }
    }
}

impl Promptable for StaticWriter {
    open spec fn accepts(&self, raw: Seq<char>) -> bool {
        raw.len() > 0
    }

    closed spec fn label(&self) -> Seq<char> {
        self.description@
    }

    fn select(&self, option: String) -> (picked: Option<String>) {
        if option.as_str().is_empty() {
            None
        } else {
            Some(option)
        }
    }

    fn describe(&self) -> (line: String) {
        self.description.to_owned()
    }
}

/// A menu takes an answer exactly when it is one of the candidates.
pub proof fn lemma_menu_accepts_members(picker: &SelectionPicker, raw: Seq<char>)
    ensures
        picker.accepts(raw) <==> picker.candidates().contains(raw),
        selection(picker, raw) == (if picker.candidates().contains(raw) {
            Some(raw)
        } else {
            None
        }),
{
}

/// A free-text field takes every answer but the empty one.
pub proof fn lemma_field_accepts_non_empty(writer: &StaticWriter, raw: Seq<char>)
    ensures
        selection(writer, raw) == (if raw.len() > 0 {
            Some(raw)
        } else {
            None
        }),
        selection(writer, Seq::<char>::empty()) is None,
{
}

/// Asking a policy twice about the same answer gives the same outcome: what
/// `select` returns is determined by the policy and the answer alone.
pub proof fn lemma_select_repeatable<T: Promptable>(
    policy: &T,
    raw: Seq<char>,
    first: Option<String>,
    second: Option<String>,
)
    requires
        text_of(first) == selection(policy, raw),
        text_of(second) == selection(policy, raw),
    ensures
        text_of(first) == text_of(second),
{
}

} // verus!
