//! Contacts and call records as every provider delivers them.
use vstd::prelude::*;

use crate::text::{
    append_str, string_of,
};

verus! {

broadcast use vstd::string::group_string_axioms;

/// Type of a phone number (e.g. mobile, work, home, internal extension).
#[derive(Debug, Clone, PartialEq, Eq)]
pub enum NumberType {
    Home,
    Work,
    Mobile,
    Fax,
    Intern,
    Vanity,
    Other(String),
}

/// A [`NumberType`] with its text as characters.
pub enum NumberTypeView {
    Home,
    Work,
    Mobile,
    Fax,
    Intern,
    Vanity,
    Other(Seq<char>),
}

impl View for NumberType {
    type V = NumberTypeView;

    open spec fn view(&self) -> NumberTypeView {
        match self {
            NumberType::Home => NumberTypeView::Home,
            NumberType::Work => NumberTypeView::Work,
            NumberType::Mobile => NumberTypeView::Mobile,
            NumberType::Fax => NumberTypeView::Fax,
            NumberType::Intern => NumberTypeView::Intern,
            NumberType::Vanity => NumberTypeView::Vanity,
            NumberType::Other(s) => NumberTypeView::Other(s@),
        }
    }
}

/// How a number type is shown.
pub open spec fn number_type_label(t: NumberType) -> Seq<char> {
    match t {
        NumberType::Home => "Home"@,
        NumberType::Work => "Work"@,
        NumberType::Mobile => "Mobile"@,
        NumberType::Fax => "Fax"@,
        NumberType::Intern => "Internal"@,
        NumberType::Vanity => "Vanity"@,
        NumberType::Other(s) => s@,
    }
}

impl NumberType {
    /// The number type as shown to the user.
    pub fn label(&self) -> (s: String)
        ensures
            s@ == number_type_label(*self),
    {
        match self {
            NumberType::Home => "Home".to_string(),
            NumberType::Work => "Work".to_string(),
            NumberType::Mobile => "Mobile".to_string(),
            NumberType::Fax => "Fax".to_string(),
            NumberType::Intern => "Internal".to_string(),
            NumberType::Vanity => "Vanity".to_string(),
            NumberType::Other(s) => s.clone(),
        }
    }
}

/// A specific phone number attached to a contact.
#[derive(Debug, Clone, PartialEq, Eq)]
pub struct PhoneNumber {
    pub number: String,
    pub number_type: NumberType,
    pub priority: u8,
}

impl View for PhoneNumber {
    type V = (Seq<char>, NumberTypeView, u8);

    open spec fn view(&self) -> (Seq<char>, NumberTypeView, u8) {
        (self.number@, self.number_type@, self.priority)
    }
}

/// Source that provided the contact or call record.
#[derive(Debug, Clone, PartialEq, Eq)]
pub enum RecordSource {
    Local,
    FritzBox { phonebook_id: u32, phonebook_name: String },
    CardDav { account: String },
    Google { email: String },
    Other(String),
}

/// How a record source is shown.
pub open spec fn record_source_label(s: RecordSource) -> Seq<char> {
    match s {
        RecordSource::Local => "Local"@,
        RecordSource::FritzBox { phonebook_name, .. } => "FRITZ!Box ("@ + phonebook_name@ + ")"@,
        RecordSource::CardDav { account } => "CardDAV ("@ + account@ + ")"@,
        RecordSource::Google { email } => "Google ("@ + email@ + ")"@,
        RecordSource::Other(s) => s@,
    }
}

fn parenthesised(prefix: &str, inner: &String) -> (s: String)
    ensures
        s@ == prefix@ + " ("@ + inner@ + ")"@,
{
    let mut out: Vec<char> = Vec::new();
    append_str(&mut out, prefix);
    append_str(&mut out, " (");
    append_str(&mut out, inner.as_str());
    append_str(&mut out, ")");
    string_of(&out)
}

impl RecordSource {
    /// The source as shown to the user.
    pub fn label(&self) -> (s: String)
        ensures
            s@ == record_source_label(*self),
    {
        proof {
            reveal_strlit("FRITZ!Box (");
            reveal_strlit("FRITZ!Box");
            reveal_strlit("CardDAV (");
            reveal_strlit("CardDAV");
            reveal_strlit("Google (");
            reveal_strlit("Google");
            reveal_strlit(" (");
        }
        match self {
            RecordSource::Local => "Local".to_string(),
            RecordSource::FritzBox { phonebook_name, .. } => parenthesised("FRITZ!Box", phonebook_name),
            RecordSource::CardDav { account } => parenthesised("CardDAV", account),
            RecordSource::Google { email } => parenthesised("Google", email),
            RecordSource::Other(s) => s.clone(),
        }
    }
}

/// A unified contact entry merged from local storage, FRITZ!Box, or `CardDAV`.
#[derive(Debug, Clone, PartialEq, Eq)]
pub struct Contact {
    /// Unique identifier across sync (e.g. `fritzbox-0-42` or `local-uuid`).
    pub id: String,
    /// Display or full name.
    pub name: String,
    /// Phone numbers associated with this contact.
    pub numbers: Vec<PhoneNumber>,
    /// Optional email addresses.
    pub emails: Vec<String>,
    /// Provider source.
    pub source: RecordSource,
}

/// The index of the number to dial: the first of those with the lowest
/// priority value.
pub open spec fn is_primary_index(numbers: Seq<PhoneNumber>, i: int) -> bool {
    &&& 0 <= i < numbers.len()
    &&& forall|j: int| 0 <= j < numbers.len() ==> numbers[i].priority <= #[trigger] numbers[j].priority
    &&& forall|j: int| 0 <= j < i ==> numbers[i].priority < #[trigger] numbers[j].priority
}

/// The number to dial, if there is any.
pub open spec fn primary_of(numbers: Seq<PhoneNumber>) -> Option<Seq<char>> {
    if exists|i: int| is_primary_index(numbers, i) {
        Some(numbers[choose|i: int| is_primary_index(numbers, i)].number@)
    } else {
        None
    }
}

/// At most one index is the primary one.
pub proof fn lemma_primary_index_unique(numbers: Seq<PhoneNumber>, i: int, j: int)
    requires
        is_primary_index(numbers, i),
        is_primary_index(numbers, j),
    ensures
        i == j,
{
    if i < j {
        assert(numbers[j].priority < numbers[i].priority);
    } else if j < i {
        assert(numbers[i].priority < numbers[j].priority);
    }
}

pub open spec fn opt_str(o: Option<&str>) -> Option<Seq<char>> {
    match o {
        Some(s) => Some(s@),
        None => None,
    }
}

impl Contact {
    /// Returns the primary number to dial for this contact: the first of the
    /// numbers with the lowest priority value, or nothing when it has none.
    pub fn primary_number(&self) -> (r: Option<&str>)
        ensures
            self.numbers@.len() == 0 <==> r is None,
            r matches Some(s) ==> exists|i: int| is_primary_index(self.numbers@, i)
                && s@ == self.numbers@[i].number@,
            opt_str(r) == primary_of(self.numbers@),
    {
        if self.numbers.len() == 0 {
            assert(!exists|i: int| is_primary_index(self.numbers@, i));
            return None;
        }
        let mut best: usize = 0;
        let mut i: usize = 1;
        while i < self.numbers.len()
            invariant
                1 <= i <= self.numbers.len(),
                best < i,
                forall|j: int| 0 <= j < i ==> self.numbers@[best as int].priority <= #[trigger] self.numbers@[j].priority,
                forall|j: int| 0 <= j < best ==> self.numbers@[best as int].priority < #[trigger] self.numbers@[j].priority,
            decreases self.numbers.len() - i,
        {
            if self.numbers[i].priority < self.numbers[best].priority {
                best = i;
            }
            i = i + 1;
        }
        assert(is_primary_index(self.numbers@, best as int));
        proof {
            let c = choose|i: int| is_primary_index(self.numbers@, i);
            lemma_primary_index_unique(self.numbers@, c, best as int);
        }
        Some(self.numbers[best].number.as_str())
    }
}

/// Direction / outcome of a call.
#[derive(Debug, Clone, Copy, PartialEq, Eq)]
pub enum CallType {
    Incoming,
    Missed,
    Outgoing,
    Rejected,
}

pub open spec fn call_type_label(t: CallType) -> Seq<char> {
    match t {
        CallType::Incoming => "Incoming"@,
        CallType::Missed => "Missed"@,
        CallType::Outgoing => "Outgoing"@,
        CallType::Rejected => "Rejected"@,
    }
}

impl CallType {
    /// The call type as shown to the user.
    pub fn label(&self) -> (s: String)
        ensures
            s@ == call_type_label(*self),
    {
        match self {
            CallType::Incoming => "Incoming".to_string(),
            CallType::Missed => "Missed".to_string(),
            CallType::Outgoing => "Outgoing".to_string(),
            CallType::Rejected => "Rejected".to_string(),
        }
    }
}

/// A unified call record from local in-app activity or router call history.
#[derive(Debug, Clone, PartialEq, Eq)]
pub struct CallRecord {
    /// Unique record ID.
    pub id: String,
    /// Type of call.
    pub call_type: CallType,
    /// Remote party phone number or SIP URI.
    pub remote_number: String,
    /// Resolved contact or caller name, if known.
    pub remote_name: Option<String>,
    /// Local extension or device name (e.g. "**620", "FRITZ!Fon", "Sipster").
    pub local_party: Option<String>,
    /// ISO-8601 formatted date/time string or human date.
    pub timestamp: String,
    /// Call duration in seconds.
    pub duration_seconds: u32,
    /// Source of this call history record.
    pub source: RecordSource,
}

} // verus!
