//! The failures that loading, the ports and a run report.

use vstd::prelude::*;
use vstd::std_specs::cmp::PartialEqSpecImpl;
use vstd::string::*;

verus! {

/// What a `ParseError` says: the parser's message and the token it could not
/// read.
pub struct ParseFailure {
    pub message: Seq<char>,
    pub token: Seq<char>,
}

/// A token of a program's source that is no integer.
#[derive(Debug)]
pub struct ParseError {
    msg: String,
    unparseable: String,
}

impl View for ParseError {
    type V = ParseFailure;

    closed spec fn view(&self) -> ParseFailure {
        ParseFailure { message: self.msg@, token: self.unparseable@ }
    }
}

impl ParseError {
    pub fn new(msg: String, unparseable: String) -> (e: ParseError)
        ensures
            e@ == (ParseFailure { message: msg@, token: unparseable@ }),
    {
        ParseError { msg, unparseable }
    }

    /// The parser's message.
    pub fn message(&self) -> (s: String)
        ensures
            s@ == self@.message,
    {
        self.msg.clone()
    }

    /// The token that could not be read.
    pub fn token(&self) -> (s: String)
        ensures
            s@ == self@.token,
    {
        self.unparseable.clone()
    }

    /// The failure in one line: the message, ` : `, the token.
    pub fn describe(&self) -> (s: String)
        ensures
            s@ == self@.message + " : "@ + self@.token,
    {
        self.msg.clone().concat(" : ").concat(self.unparseable.as_str())
    }
}

impl PartialEq for ParseError {
    fn eq(&self, other: &ParseError) -> (r: bool) {
        self.msg == other.msg && self.unparseable == other.unparseable
    }
}

impl PartialEqSpecImpl for ParseError {
    open spec fn obeys_eq_spec() -> bool {
        true
    }

    open spec fn eq_spec(&self, other: &ParseError) -> bool {
        self@ == other@
    }
}

/// A port's reason for refusing a pull.
#[derive(Debug)]
pub struct InputError {
    msg: String,
}

impl View for InputError {
    type V = Seq<char>;

    closed spec fn view(&self) -> Seq<char> {
        self.msg@
    }
}

impl InputError {
    pub fn new(msg: &str) -> (e: InputError)
        ensures
            e@ == msg@,
    {
        InputError { msg: msg.to_owned() }
    }

    /// The reason, as text.
    pub fn message(&self) -> (s: String)
        ensures
            s@ == self@,
    {
        self.msg.clone()
    }
}

impl PartialEq for InputError {
    fn eq(&self, other: &InputError) -> (r: bool) {
        self.msg == other.msg
    }
}

impl PartialEqSpecImpl for InputError {
    open spec fn obeys_eq_spec() -> bool {
        true
    }

    open spec fn eq_spec(&self, other: &InputError) -> bool {
        self@ == other@
    }
}

/// A port's reason for refusing a pushed value.
#[derive(Debug)]
pub struct OutputError {
    msg: String,
}

impl View for OutputError {
    type V = Seq<char>;

    closed spec fn view(&self) -> Seq<char> {
        self.msg@
    }
}

impl OutputError {
    pub fn new(msg: &str) -> (e: OutputError)
        ensures
            e@ == msg@,
    {
        OutputError { msg: msg.to_owned() }
    }

    /// The reason, as text.
    pub fn message(&self) -> (s: String)
        ensures
            s@ == self@,
    {
        self.msg.clone()
    }
}

impl PartialEq for OutputError {
    fn eq(&self, other: &OutputError) -> (r: bool) {
        self.msg == other.msg
    }
}

impl PartialEqSpecImpl for OutputError {
    open spec fn obeys_eq_spec() -> bool {
        true
    }

    open spec fn eq_spec(&self, other: &OutputError) -> bool {
        self@ == other@
    }
}

/// What an `ExecutionError` says: a message, and a context that maps keys to
/// values.
pub struct ExecutionReport {
    pub message: Seq<char>,
    pub info: Map<Seq<char>, Seq<char>>,
}

/// The mapping that a list of entries stands for: each entry's key bound to its
/// value.
pub open spec fn info_of(entries: Seq<(String, String)>) -> Map<Seq<char>, Seq<char>>
    decreases entries.len(),
{
    if entries.len() == 0 {
        Map::empty()
    } else {
        info_of(entries.drop_last()).insert(entries.last().0@, entries.last().1@)
    }
}

/// No key stands in two entries.
pub open spec fn distinct_keys(entries: Seq<(String, String)>) -> bool {
    forall|i: int, j: int| 0 <= i < j < entries.len() ==> entries[i].0@ != entries[j].0@
}

proof fn lemma_info_absent(entries: Seq<(String, String)>, key: Seq<char>)
    requires
        forall|i: int| 0 <= i < entries.len() ==> entries[i].0@ != key,
    ensures
        !info_of(entries).contains_key(key),
    decreases entries.len(),
{
    if entries.len() > 0 {
        lemma_info_absent(entries.drop_last(), key);
    }
}

proof fn lemma_info_present(entries: Seq<(String, String)>, at: int)
    requires
        distinct_keys(entries),
        0 <= at < entries.len(),
    ensures
        info_of(entries).contains_key(entries[at].0@),
        info_of(entries)[entries[at].0@] == entries[at].1@,
    decreases entries.len(),
{
    if at < entries.len() - 1 {
        lemma_info_present(entries.drop_last(), at);
    }
}

proof fn lemma_info_replace(entries: Seq<(String, String)>, at: int, entry: (String, String))
    requires
        distinct_keys(entries),
        0 <= at < entries.len(),
        entries[at].0@ == entry.0@,
    ensures
        distinct_keys(entries.update(at, entry)),
        info_of(entries.update(at, entry)) =~= info_of(entries).insert(entry.0@, entry.1@),
    decreases entries.len(),
{
    let changed = entries.update(at, entry);
    if at == entries.len() - 1 {
        assert(changed.drop_last() =~= entries.drop_last());
    } else {
        lemma_info_replace(entries.drop_last(), at, entry);
        assert(changed.drop_last() =~= entries.drop_last().update(at, entry));
        assert(changed.last() == entries.last());
        assert(entries.last().0@ != entry.0@);
    }
}

proof fn lemma_info_has_entry(entries: Seq<(String, String)>, key: Seq<char>)
    requires
        info_of(entries).contains_key(key),
    ensures
        exists|i: int| 0 <= i < entries.len() && (#[trigger] entries[i]).0@ == key,
    decreases entries.len(),
{
    if entries.len() > 0 {
        if entries.last().0@ == key {
            assert(entries[entries.len() - 1].0@ == key);
        } else {
            lemma_info_has_entry(entries.drop_last(), key);
            let i = choose|i: int|
                0 <= i < entries.drop_last().len() && (#[trigger] entries.drop_last()[i]).0@ == key;
            assert(entries[i].0@ == key);
        }
    }
}

/// A run that failed: what went wrong, and the context it went wrong in.
#[derive(Debug)]
pub struct ExecutionError {
    msg: String,
    additional_info: Vec<(String, String)>,
}

impl View for ExecutionError {
    type V = ExecutionReport;

    closed spec fn view(&self) -> ExecutionReport {
        ExecutionReport { message: self.msg@, info: info_of(self.additional_info@) }
    }
}

impl ExecutionError {
    #[verifier::type_invariant]
    spec fn keys_are_distinct(&self) -> bool {
        distinct_keys(self.additional_info@)
    }

    /// A failure with a message and an empty context.
    pub fn new(msg: String) -> (e: ExecutionError)
        ensures
            e@ == (ExecutionReport { message: msg@, info: Map::empty() }),
    {
        ExecutionError { msg, additional_info: Vec::new() }
    }

    /// Binds `key` to `val` in the context; a value bound to `key` before is
    /// replaced.
    pub fn add_info(&mut self, key: String, val: String)
        ensures
            final(self)@ == (ExecutionReport {
                message: old(self)@.message,
                info: old(self)@.info.insert(key@, val@),
            }),
    {
        proof {
            use_type_invariant(&*self);
        }
        let mut entries: Vec<(String, String)> = Vec::new();
        std::mem::swap(&mut entries, &mut self.additional_info);
        let ghost before = entries@;
        let mut i: usize = 0;
        let mut found = false;
        while i < entries.len() && !found
            invariant
                entries@ == before,
                i <= entries.len(),
                found ==> i < entries.len() && entries[i as int].0@ == key@,
                !found ==> forall|j: int| 0 <= j < i ==> entries[j].0@ != key@,
            decreases entries.len() - i + (if found { 0int } else { 1int }),
        {
            if entries[i].0 == key {
                found = true;
            } else {
                i += 1;
            }
        }
        if found {
            proof {
                lemma_info_replace(before, i as int, (key, val));
            }
            entries.set(i, (key, val));
        } else {
            proof {
                assert(entries@.push((key, val)).drop_last() =~= before);
                assert forall|a: int, b: int| 0 <= a < b < before.len() + 1 implies before.push(
                    (key, val),
                )[a].0@ != before.push((key, val))[b].0@ by {}
            }
            entries.push((key, val));
        }
        self.additional_info = entries;
    }

    /// The message.
    pub fn message(&self) -> (s: String)
        ensures
            s@ == self@.message,
    {
        self.msg.clone()
    }

    /// Whether every binding of this context stands in `other`'s too.
    fn within(&self, other: &ExecutionError) -> (r: bool)
        ensures
            r == self@.info.submap_of(other@.info),
    {
        proof {
            use_type_invariant(self);
        }
        let mut i: usize = 0;
        while i < self.additional_info.len()
            invariant
                i <= self.additional_info.len(),
                distinct_keys(self.additional_info@),
                forall|j: int|
                    0 <= j < i ==> other@.info.contains_key(
                        (#[trigger] self.additional_info@[j]).0@,
                    ) && other@.info[self.additional_info@[j].0@] == self.additional_info@[j].1@,
            decreases self.additional_info.len() - i,
        {
            proof {
                lemma_info_present(self.additional_info@, i as int);
            }
            let found = match other.info(self.additional_info[i].0.as_str()) {
                Some(val) => val == self.additional_info[i].1,
                None => false,
            };
            if !found {
                return false;
            }
            i += 1;
        }
        proof {
            assert forall|key: Seq<char>| #[trigger]
                self@.info.contains_key(key) implies other@.info.contains_key(key)
                && self@.info[key] == other@.info[key] by {
                lemma_info_has_entry(self.additional_info@, key);
                let j = choose|j: int|
                    0 <= j < self.additional_info@.len() && (
                    #[trigger] self.additional_info@[j]).0@ == key;
                lemma_info_present(self.additional_info@, j);
            }
        }
        true
    }

    /// The context as a list: each key once, with its value.
    pub fn entries(&self) -> (list: Vec<(String, String)>)
        ensures
            distinct_keys(list@),
            info_of(list@) == self@.info,
    {
        proof {
            use_type_invariant(self);
        }
        let mut list: Vec<(String, String)> = Vec::new();
        let mut i: usize = 0;
        while i < self.additional_info.len()
            invariant
                i <= self.additional_info.len(),
                list@ == self.additional_info@.take(i as int),
            decreases self.additional_info.len() - i,
        {
            let key = self.additional_info[i].0.clone();
            let val = self.additional_info[i].1.clone();
            list.push((key, val));
            assert(list@ =~= self.additional_info@.take(i + 1));
            i += 1;
        }
        assert(list@ =~= self.additional_info@);
        list
    }

    /// The value bound to `key` in the context, if there is one.
    pub fn info(&self, key: &str) -> (v: Option<String>)
        ensures
            match v {
                Some(s) => self@.info.contains_key(key@) && s@ == self@.info[key@],
                None => !self@.info.contains_key(key@),
            },
    {
        proof {
            use_type_invariant(self);
        }
        let wanted = String::from_str(key);
        let mut i: usize = 0;
        while i < self.additional_info.len()
            invariant
                wanted@ == key@,
                distinct_keys(self.additional_info@),
                forall|j: int| 0 <= j < i ==> self.additional_info@[j].0@ != key@,
            decreases self.additional_info.len() - i,
        {
            if self.additional_info[i].0 == wanted {
                proof {
                    lemma_info_present(self.additional_info@, i as int);
                }
                return Some(self.additional_info[i].1.clone());
            }
            i += 1;
        }
        proof {
            lemma_info_absent(self.additional_info@, key@);
        }
        None
    }
}

impl PartialEq for ExecutionError {
    fn eq(&self, other: &ExecutionError) -> (r: bool) {
        let r = self.msg == other.msg && self.within(other) && other.within(self);
        proof {
            if r {
                assert forall|key: Seq<char>|
                    self@.info.dom().contains(key) == other@.info.dom().contains(key) by {
                    if self@.info.dom().contains(key) {
                        assert(other@.info.dom().contains(key));
                    }
                    if other@.info.dom().contains(key) {
                        assert(self@.info.dom().contains(key));
                    }
                }
                assert(self@.info.dom() =~= other@.info.dom());
                assert(self@.info =~= other@.info);
            }
        }
        r
    }
}

impl PartialEqSpecImpl for ExecutionError {
    open spec fn obeys_eq_spec() -> bool {
        true
    }

    open spec fn eq_spec(&self, other: &ExecutionError) -> bool {
        self@ == other@
    }
}

} // verus!
