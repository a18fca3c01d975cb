//! The fields of a notification's body, and which of them are left out.

use vstd::prelude::*;

use crate::text::{join, join_spec, join_strs, normalize, normalize_names, str_eq, str_views, views};

verus! {

/// A field of a notification's body.
#[derive(Debug, Clone, Copy, PartialEq, Eq, Hash, Structural)]
pub enum BodyField {
    Event,
    Repository,
    Action,
    PriorStatus,
    Ref,
    Commit,
    Sender,
    Url,
    Delivery,
}

/// The name by which configurations and messages write a field.
pub open spec fn field_name(field: BodyField) -> Seq<char> {
    match field {
        BodyField::Event => "event"@,
        BodyField::Repository => "repository"@,
        BodyField::Action => "action"@,
        BodyField::PriorStatus => "prior_status"@,
        BodyField::Ref => "ref"@,
        BodyField::Commit => "commit"@,
        BodyField::Sender => "sender"@,
        BodyField::Url => "url"@,
        BodyField::Delivery => "delivery"@,
    }
}

/// The field that `name` names, if any.
pub open spec fn parse_field_spec(name: Seq<char>) -> Option<BodyField> {
    if name == "event"@ {
        Some(BodyField::Event)
    } else if name == "repository"@ {
        Some(BodyField::Repository)
    } else if name == "action"@ {
        Some(BodyField::Action)
    } else if name == "prior_status"@ {
        Some(BodyField::PriorStatus)
    } else if name == "ref"@ {
        Some(BodyField::Ref)
    } else if name == "commit"@ {
        Some(BodyField::Commit)
    } else if name == "sender"@ {
        Some(BodyField::Sender)
    } else if name == "url"@ {
        Some(BodyField::Url)
    } else if name == "delivery"@ {
        Some(BodyField::Delivery)
    } else {
        None
    }
}

/// The names of all fields, in the order a message lists them.
pub open spec fn field_names_spec() -> Seq<Seq<char>> {
    seq![
        "event"@,
        "repository"@,
        "action"@,
        "prior_status"@,
        "ref"@,
        "commit"@,
        "sender"@,
        "url"@,
        "delivery"@,
    ]
}

impl BodyField {
    /// The names of all fields, in the order a message lists them.
    pub fn valid_names() -> (res: Vec<&'static str>)
        ensures
            str_views(res@) == field_names_spec(),
    {
        let res: Vec<&'static str> = vec![
            "event",
            "repository",
            "action",
            "prior_status",
            "ref",
            "commit",
            "sender",
            "url",
            "delivery",
        ];
        assert(str_views(res@) =~= field_names_spec());
        res
    }

    /// The field's name.
    pub fn as_str(&self) -> (res: &'static str)
        ensures
            res@ == field_name(*self),
    {
        match self {
            BodyField::Event => "event",
            BodyField::Repository => "repository",
            BodyField::Action => "action",
            BodyField::PriorStatus => "prior_status",
            BodyField::Ref => "ref",
            BodyField::Commit => "commit",
            BodyField::Sender => "sender",
            BodyField::Url => "url",
            BodyField::Delivery => "delivery",
        }
    }

    /// The field's name, owned.
    pub fn to_string(&self) -> (res: String)
        ensures
            res@ == field_name(*self),
    {
        self.as_str().to_owned()
    }

    /// The field that `name` names, if any.
    pub fn parse_name(name: &str) -> (res: Option<BodyField>)
        ensures
            res == parse_field_spec(name@),
    {
        if str_eq(name, "event") {
            Some(BodyField::Event)
        } else if str_eq(name, "repository") {
            Some(BodyField::Repository)
        } else if str_eq(name, "action") {
            Some(BodyField::Action)
        } else if str_eq(name, "prior_status") {
            Some(BodyField::PriorStatus)
        } else if str_eq(name, "ref") {
            Some(BodyField::Ref)
        } else if str_eq(name, "commit") {
            Some(BodyField::Commit)
        } else if str_eq(name, "sender") {
            Some(BodyField::Sender)
        } else if str_eq(name, "url") {
            Some(BodyField::Url)
        } else if str_eq(name, "delivery") {
            Some(BodyField::Delivery)
        } else {
            None
        }
    }
}

impl std::str::FromStr for BodyField {
    type Err = ();

    fn from_str(value: &str) -> (res: Result<Self, Self::Err>)
        ensures
            res == match parse_field_spec(value@) {
                Some(field) => Ok(field),
                None => Err(()),
            },
    {
        match BodyField::parse_name(value) {
            Some(field) => Ok(field),
            None => Err(()),
        }
    }
}

/// The names that name no field, in order.
pub open spec fn invalid_fields(names: Seq<Seq<char>>) -> Seq<Seq<char>>
    decreases names.len(),
{
    if names.len() == 0 {
        Seq::empty()
    } else if parse_field_spec(names.last()) is None {
        invalid_fields(names.drop_last()).push(names.last())
    } else {
        invalid_fields(names.drop_last())
    }
}

/// The fields that the names name.
pub open spec fn named_fields(names: Seq<Seq<char>>) -> Set<BodyField>
    decreases names.len(),
{
    if names.len() == 0 {
        Set::empty()
    } else {
        match parse_field_spec(names.last()) {
            Some(f) => named_fields(names.drop_last()).insert(f),
            None => named_fields(names.drop_last()),
        }
    }
}

/// Why a list of field names is refused.
#[derive(Debug)]
pub enum BodyFieldError {
    /// Some names name no field.
    Invalid { invalid: String, valid: String },
}

/// A `BodyFieldError` with its texts as character sequences.
pub enum BodyFieldErrorView {
    Invalid { invalid: Seq<char>, valid: Seq<char> },
}

impl View for BodyFieldError {
    type V = BodyFieldErrorView;

    open spec fn view(&self) -> BodyFieldErrorView {
        match self {
            BodyFieldError::Invalid { invalid, valid } => BodyFieldErrorView::Invalid {
                invalid: invalid@,
                valid: valid@,
            },
        }
    }
}

/// The refusal that a list of configured field names meets, if any.
pub open spec fn body_field_error_spec(names: Seq<Seq<char>>) -> Option<BodyFieldErrorView> {
    let invalid = invalid_fields(normalize_names(names));
    if invalid.len() > 0 {
        Some(
            BodyFieldErrorView::Invalid {
                invalid: join_spec(invalid, ", "@),
                valid: join_spec(field_names_spec(), ", "@),
            },
        )
    } else {
        None
    }
}

/// The message of a `BodyFieldError`.
pub open spec fn body_field_message(e: BodyFieldErrorView) -> Seq<char> {
    match e {
        BodyFieldErrorView::Invalid { invalid, valid } => "invalid notification body exclude fields: "@
            + invalid + ". valid fields: "@ + valid,
    }
}

impl BodyFieldError {
    /// The error's message.
    pub fn to_string(&self) -> (res: String)
        ensures
            res@ == body_field_message(self@),
    {
        match self {
            BodyFieldError::Invalid { invalid, valid } => {
                let mut res: String = "invalid notification body exclude fields: ".to_owned();
                res.append(invalid.as_str());
                res.append(". valid fields: ");
                res.append(valid.as_str());
                res
            },
        }
    }
}

/// The fields left out of a notification's body.
#[derive(Debug, Clone)]
pub struct BodyFieldExclusions {
    fields: Vec<BodyField>,
}

impl View for BodyFieldExclusions {
    type V = Set<BodyField>;

    closed spec fn view(&self) -> Set<BodyField> {
        self.fields@.to_set()
    }
}

impl BodyFieldExclusions {
    /// The fields that the names name, each trimmed; blank names are
    /// dropped, and a name that names no field refuses the list.
    pub fn new(fields: Vec<String>) -> (res: Result<Self, BodyFieldError>)
        ensures
            match res {
                Ok(exclusions) => body_field_error_spec(views(fields@)) is None && exclusions@
                    == named_fields(normalize_names(views(fields@))),
                Err(e) => body_field_error_spec(views(fields@)) == Some(e@),
            },
    {
        let names: Vec<String> = normalize(&fields);
        let ghost norm = views(names@);
        let mut invalid: Vec<String> = Vec::new();
        let mut parsed: Vec<BodyField> = Vec::new();
        let mut i: usize = 0;
        while i < names.len()
            invariant
                i <= names@.len(),
                norm == views(names@),
                views(invalid@) == invalid_fields(norm.take(i as int)),
                parsed@.to_set() == named_fields(norm.take(i as int)),
            decreases names@.len() - i,
        {
            let name: &str = names[i].as_str();
            let ghost prefix = norm.take(i + 1);
            assert(prefix.drop_last() =~= norm.take(i as int));
            assert(prefix.last() == name@);
            let ghost parsed_before = parsed@;
            let ghost invalid_before = views(invalid@);
            match BodyField::parse_name(name) {
                Some(field) => {
                    parsed.push(field);
                    proof {
                        parsed_before.lemma_push_to_set_commute(field);
                    }
                },
                None => {
                    invalid.push(name.to_owned());
                    assert(views(invalid@) =~= invalid_before.push(name@));
                },
            }
            i = i + 1;
        }
        assert(norm.take(names@.len() as int) =~= norm);
        if invalid.len() > 0 {
            let valid = BodyField::valid_names();
            return Err(
                BodyFieldError::Invalid {
                    invalid: join(&invalid, ", "),
                    valid: join_strs(&valid, ", "),
                },
            );
        }
        Ok(BodyFieldExclusions { fields: parsed })
    }

    /// Whether `field` is left out.
    pub fn includes(&self, field: BodyField) -> (res: bool)
        ensures
            res == self@.contains(field),
    {
        let mut i: usize = 0;
        while i < self.fields.len()
            invariant
                i <= self.fields@.len(),
                forall|k: int| 0 <= k < i ==> self.fields@[k] != field,
            decreases self.fields@.len() - i,
        {
            if self.fields[i] == field {
                assert(self.fields@[i as int] == field);
                return true;
            }
            i = i + 1;
        }
        false
    }
}

/// Reading a field's name gives the field back.
pub proof fn lemma_parse_field_name(field: BodyField)
    ensures
        parse_field_spec(field_name(field)) == Some(field),
{
    reveal_strlit("event");
    reveal_strlit("repository");
    reveal_strlit("action");
    reveal_strlit("prior_status");
    reveal_strlit("ref");
    reveal_strlit("commit");
    reveal_strlit("sender");
    reveal_strlit("url");
    reveal_strlit("delivery");
    assert("event"@.len() == 5 && "event"@[0] == 'e');
    assert("repository"@.len() == 10 && "repository"@[0] == 'r');
    assert("action"@.len() == 6 && "action"@[0] == 'a');
    assert("prior_status"@.len() == 12 && "prior_status"@[0] == 'p');
    assert("ref"@.len() == 3 && "ref"@[0] == 'r');
    assert("commit"@.len() == 6 && "commit"@[0] == 'c');
    assert("sender"@.len() == 6 && "sender"@[0] == 's');
    assert("url"@.len() == 3 && "url"@[0] == 'u');
    assert("delivery"@.len() == 8 && "delivery"@[0] == 'd');
    match field {
        BodyField::Event => {},
        BodyField::Repository => {},
        BodyField::Action => {},
        BodyField::PriorStatus => {},
        BodyField::Ref => {},
        BodyField::Commit => {},
        BodyField::Sender => {},
        BodyField::Url => {},
        BodyField::Delivery => {},
    }
}

/// Only field names read as fields, and the valid names are exactly the
/// names of the fields.
pub proof fn lemma_valid_field_names(field: BodyField, name: Seq<char>)
    ensures
        parse_field_spec(name) == Some(field) ==> field_name(field) == name,
        field_names_spec().contains(name) <==> parse_field_spec(name) is Some,
        field_names_spec().contains(field_name(field)),
{
    if field_names_spec().contains(name) {
        let k = choose|k: int| 0 <= k < field_names_spec().len() && field_names_spec()[k] == name;
        assert(parse_field_spec(name) is Some);
    }
    if parse_field_spec(name) is Some {
        assert(field_names_spec().contains(name)) by {
            if name == "event"@ {
                assert(field_names_spec()[0] == name);
            } else if name == "repository"@ {
                assert(field_names_spec()[1] == name);
            } else if name == "action"@ {
                assert(field_names_spec()[2] == name);
            } else if name == "prior_status"@ {
                assert(field_names_spec()[3] == name);
            } else if name == "ref"@ {
                assert(field_names_spec()[4] == name);
            } else if name == "commit"@ {
                assert(field_names_spec()[5] == name);
            } else if name == "sender"@ {
                assert(field_names_spec()[6] == name);
            } else if name == "url"@ {
                assert(field_names_spec()[7] == name);
            } else {
                assert(field_names_spec()[8] == name);
            }
        }
    }
    assert(field_names_spec().contains(field_name(field))) by {
        match field {
            BodyField::Event => assert(field_names_spec()[0] == field_name(field)),
            BodyField::Repository => assert(field_names_spec()[1] == field_name(field)),
            BodyField::Action => assert(field_names_spec()[2] == field_name(field)),
            BodyField::PriorStatus => assert(field_names_spec()[3] == field_name(field)),
            BodyField::Ref => assert(field_names_spec()[4] == field_name(field)),
            BodyField::Commit => assert(field_names_spec()[5] == field_name(field)),
            BodyField::Sender => assert(field_names_spec()[6] == field_name(field)),
            BodyField::Url => assert(field_names_spec()[7] == field_name(field)),
            BodyField::Delivery => assert(field_names_spec()[8] == field_name(field)),
        }
    }
}

/// No field name holds a colon.
pub proof fn lemma_field_name_has_no_colon(field: BodyField)
    ensures
        forall|i: int| 0 <= i < field_name(field).len() ==> #[trigger] field_name(field)[i] != ':',
{
    match field {
        BodyField::Event => {
            reveal_strlit("event");
            assert(field_name(field).len() == 5);
            assert(field_name(field)[0] == 'e');
            assert(field_name(field)[1] == 'v');
            assert(field_name(field)[2] == 'e');
            assert(field_name(field)[3] == 'n');
            assert(field_name(field)[4] == 't');
        },
        BodyField::Repository => {
            reveal_strlit("repository");
            assert(field_name(field).len() == 10);
            assert(field_name(field)[0] == 'r');
            assert(field_name(field)[1] == 'e');
            assert(field_name(field)[2] == 'p');
            assert(field_name(field)[3] == 'o');
            assert(field_name(field)[4] == 's');
            assert(field_name(field)[5] == 'i');
            assert(field_name(field)[6] == 't');
            assert(field_name(field)[7] == 'o');
            assert(field_name(field)[8] == 'r');
            assert(field_name(field)[9] == 'y');
        },
        BodyField::Action => {
            reveal_strlit("action");
            assert(field_name(field).len() == 6);
            assert(field_name(field)[0] == 'a');
            assert(field_name(field)[1] == 'c');
            assert(field_name(field)[2] == 't');
            assert(field_name(field)[3] == 'i');
            assert(field_name(field)[4] == 'o');
            assert(field_name(field)[5] == 'n');
        },
        BodyField::PriorStatus => {
            reveal_strlit("prior_status");
            assert(field_name(field).len() == 12);
            assert(field_name(field)[0] == 'p');
            assert(field_name(field)[1] == 'r');
            assert(field_name(field)[2] == 'i');
            assert(field_name(field)[3] == 'o');
            assert(field_name(field)[4] == 'r');
            assert(field_name(field)[5] == '_');
            assert(field_name(field)[6] == 's');
            assert(field_name(field)[7] == 't');
            assert(field_name(field)[8] == 'a');
            assert(field_name(field)[9] == 't');
            assert(field_name(field)[10] == 'u');
            assert(field_name(field)[11] == 's');
        },
        BodyField::Ref => {
            reveal_strlit("ref");
            assert(field_name(field).len() == 3);
            assert(field_name(field)[0] == 'r');
            assert(field_name(field)[1] == 'e');
            assert(field_name(field)[2] == 'f');
        },
        BodyField::Commit => {
            reveal_strlit("commit");
            assert(field_name(field).len() == 6);
            assert(field_name(field)[0] == 'c');
            assert(field_name(field)[1] == 'o');
            assert(field_name(field)[2] == 'm');
            assert(field_name(field)[3] == 'm');
            assert(field_name(field)[4] == 'i');
            assert(field_name(field)[5] == 't');
        },
        BodyField::Sender => {
            reveal_strlit("sender");
            assert(field_name(field).len() == 6);
            assert(field_name(field)[0] == 's');
            assert(field_name(field)[1] == 'e');
            assert(field_name(field)[2] == 'n');
            assert(field_name(field)[3] == 'd');
            assert(field_name(field)[4] == 'e');
            assert(field_name(field)[5] == 'r');
        },
        BodyField::Url => {
            reveal_strlit("url");
            assert(field_name(field).len() == 3);
            assert(field_name(field)[0] == 'u');
            assert(field_name(field)[1] == 'r');
            assert(field_name(field)[2] == 'l');
        },
        BodyField::Delivery => {
            reveal_strlit("delivery");
            assert(field_name(field).len() == 8);
            assert(field_name(field)[0] == 'd');
            assert(field_name(field)[1] == 'e');
            assert(field_name(field)[2] == 'l');
            assert(field_name(field)[3] == 'i');
            assert(field_name(field)[4] == 'v');
            assert(field_name(field)[5] == 'e');
            assert(field_name(field)[6] == 'r');
            assert(field_name(field)[7] == 'y');
        },
    }
}

/// The names that a refusal reports as invalid are exactly the configured
/// names that are not among the valid field names.
pub proof fn lemma_invalid_fields(names: Seq<Seq<char>>, name: Seq<char>)
    ensures
        invalid_fields(names).contains(name) <==> names.contains(name)
            && !field_names_spec().contains(name),
    decreases names.len(),
{
    lemma_valid_field_names(BodyField::Event, name);
    if names.len() > 0 {
        let prev = names.drop_last();
        lemma_invalid_fields(prev, name);
        if names.contains(name) {
            let m = choose|m: int| 0 <= m < names.len() && names[m] == name;
            if m < prev.len() {
                assert(prev[m] == name);
            }
        }
        if prev.contains(name) {
            let m = choose|m: int| 0 <= m < prev.len() && prev[m] == name;
            assert(names[m] == name);
        }
        if parse_field_spec(names.last()) is None {
            let inv = invalid_fields(prev).push(names.last());
            if inv.contains(name) {
                let m = choose|m: int| 0 <= m < inv.len() && inv[m] == name;
                if m < invalid_fields(prev).len() {
                    assert(invalid_fields(prev)[m] == name);
                } else {
                    assert(names[names.len() - 1] == name);
                }
            }
            if invalid_fields(prev).contains(name) {
                let m = choose|m: int|
                    0 <= m < invalid_fields(prev).len() && invalid_fields(prev)[m] == name;
                assert(inv[m] == name);
            }
            if name == names.last() {
                assert(inv[inv.len() - 1] == name);
            }
        }
    }
}

} // verus!
