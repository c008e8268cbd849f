//! The options record of the prepare-install call, and its wire form.
use vstd::prelude::*;
use crate::launcher::{launcher_type_bit, LauncherType};
use crate::token::HandleToken;
use crate::wire::{
    entry_if, find, lemma_lookup_concat, lemma_lookup_entry_if, lookup, record_view, DecodeError,
    Entry, Value, ValueView,
};

verus! {

/// Options to pass to the prepare-install call. A field left unset is not
/// sent, so that the portal applies its own default.
#[derive(Debug, PartialEq, Eq)]
pub struct PrepareInstallOptions {
    handle_token: HandleToken,
    modal: Option<bool>,
    launcher_type: Option<LauncherType>,
    target: Option<String>,
    editable_name: Option<bool>,
    editable_icon: Option<bool>,
}

/// The mathematical content of a [`PrepareInstallOptions`].
pub struct OptionsView {
    pub handle_token: Seq<char>,
    pub modal: Option<bool>,
    pub launcher_type: Option<LauncherType>,
    pub target: Option<Seq<char>>,
    pub editable_name: Option<bool>,
    pub editable_icon: Option<bool>,
}

/// The contents of an optional string.
pub open spec fn opt_string_view(s: Option<String>) -> Option<Seq<char>> {
    match s {
        Some(t) => Some(t@),
        None => None,
    }
}

impl View for PrepareInstallOptions {
    type V = OptionsView;

    closed spec fn view(&self) -> OptionsView {
        OptionsView {
            handle_token: self.handle_token@,
            modal: self.modal,
            launcher_type: self.launcher_type,
            target: opt_string_view(self.target),
            editable_name: self.editable_name,
            editable_icon: self.editable_icon,
        }
    }
}

/// A boolean field on the wire.
pub open spec fn bool_value(b: Option<bool>) -> Option<ValueView> {
    match b {
        Some(x) => Some(ValueView::Bool(x)),
        None => None,
    }
}

/// A launcher type field on the wire.
pub open spec fn type_value(t: Option<LauncherType>) -> Option<ValueView> {
    match t {
        Some(x) => Some(ValueView::U32(launcher_type_bit(x))),
        None => None,
    }
}

/// A string field on the wire.
pub open spec fn str_value(s: Option<Seq<char>>) -> Option<ValueView> {
    match s {
        Some(x) => Some(ValueView::Str(x)),
        None => None,
    }
}

/// The wire record of a set of options: the fields in declaration order,
/// the unset ones left out.
pub open spec fn options_record(o: OptionsView) -> Seq<(Seq<char>, ValueView)> {
    entry_if("handle_token"@, Some(ValueView::Str(o.handle_token))) + entry_if(
        "modal"@,
        bool_value(o.modal),
    ) + entry_if("launcher_type"@, type_value(o.launcher_type))
        + entry_if("target"@, str_value(o.target)) + entry_if(
        "editable_name"@,
        bool_value(o.editable_name),
    ) + entry_if("editable_icon"@, bool_value(o.editable_icon))
}

/// A field that must be a string and must be present.
pub open spec fn required_str(v: Option<ValueView>) -> Result<Seq<char>, DecodeError> {
    match v {
        None => Err(DecodeError::Truncated),
        Some(ValueView::Str(s)) => Ok(s),
        Some(_) => Err(DecodeError::SignatureMismatch),
    }
}

/// A field that is a string if present.
pub open spec fn optional_str(v: Option<ValueView>) -> Result<Option<Seq<char>>, DecodeError> {
    match v {
        None => Ok(None),
        Some(ValueView::Str(s)) => Ok(Some(s)),
        Some(_) => Err(DecodeError::SignatureMismatch),
    }
}

/// A field that is a boolean if present.
pub open spec fn optional_bool(v: Option<ValueView>) -> Result<Option<bool>, DecodeError> {
    match v {
        None => Ok(None),
        Some(ValueView::Bool(b)) => Ok(Some(b)),
        Some(_) => Err(DecodeError::SignatureMismatch),
    }
}

/// A field that is a launcher type if present.
pub open spec fn optional_launcher_type(v: Option<ValueView>) -> Result<Option<LauncherType>, DecodeError> {
    match v {
        None => Ok(None),
        Some(ValueView::U32(n)) => if n == 1 {
            Ok(Some(LauncherType::Application))
        } else if n == 2 {
            Ok(Some(LauncherType::WebApplication))
        } else {
            Err(DecodeError::UnknownVariant)
        },
        Some(_) => Err(DecodeError::SignatureMismatch),
    }
}

/// The options that a wire record holds; the fields are read in declaration
/// order and the first that fails decides the error.
pub open spec fn options_of(r: Seq<(Seq<char>, ValueView)>) -> Result<OptionsView, DecodeError> {
    match required_str(lookup(r, "handle_token"@)) {
        Err(e) => Err(e),
        Ok(handle_token) => match optional_bool(lookup(r, "modal"@)) {
            Err(e) => Err(e),
            Ok(modal) => match optional_launcher_type(lookup(r, "launcher_type"@)) {
                Err(e) => Err(e),
                Ok(launcher_type) => match optional_str(lookup(r, "target"@)) {
                    Err(e) => Err(e),
                    Ok(target) => match optional_bool(lookup(r, "editable_name"@)) {
                        Err(e) => Err(e),
                        Ok(editable_name) => match optional_bool(lookup(r, "editable_icon"@)) {
                            Err(e) => Err(e),
                            Ok(editable_icon) => Ok(
                                OptionsView {
                                    handle_token,
                                    modal,
                                    launcher_type,
                                    target,
                                    editable_name,
                                    editable_icon,
                                },
                            ),
                        },
                    },
                },
            },
        },
    }
}

pub(crate) fn read_required_str(record: &Vec<Entry>, key: &str) -> (r: Result<String, DecodeError>)
    ensures
        match r {
            Ok(s) => required_str(lookup(record_view(record@), key@)) == Ok::<Seq<char>, DecodeError>(s@),
            Err(e) => required_str(lookup(record_view(record@), key@)) == Err::<Seq<char>, DecodeError>(e),
        },
{
    let k = key.to_owned();
    match find(record, &k) {
        None => Err(DecodeError::Truncated),
        Some(i) => match &record[i].value {
            Value::Str(s) => Ok(s.clone()),
            _ => Err(DecodeError::SignatureMismatch),
        },
    }
}

fn read_optional_str(record: &Vec<Entry>, key: &str) -> (r: Result<Option<String>, DecodeError>)
    ensures
        match r {
            Ok(s) => optional_str(lookup(record_view(record@), key@)) == Ok::<Option<Seq<char>>, DecodeError>(opt_string_view(s)),
            Err(e) => optional_str(lookup(record_view(record@), key@)) == Err::<Option<Seq<char>>, DecodeError>(e),
        },
{
    let k = key.to_owned();
    match find(record, &k) {
        None => Ok(None),
        Some(i) => match &record[i].value {
            Value::Str(s) => Ok(Some(s.clone())),
            _ => Err(DecodeError::SignatureMismatch),
        },
    }
}

fn read_optional_bool(record: &Vec<Entry>, key: &str) -> (r: Result<Option<bool>, DecodeError>)
    ensures
        r == optional_bool(lookup(record_view(record@), key@)),
{
    let k = key.to_owned();
    match find(record, &k) {
        None => Ok(None),
        Some(i) => match &record[i].value {
            Value::Bool(b) => Ok(Some(*b)),
            _ => Err(DecodeError::SignatureMismatch),
        },
    }
}

fn read_launcher_type(record: &Vec<Entry>, key: &str) -> (r: Result<Option<LauncherType>, DecodeError>)
    ensures
        r == optional_launcher_type(lookup(record_view(record@), key@)),
{
    let k = key.to_owned();
    match find(record, &k) {
        None => Ok(None),
        Some(i) => match &record[i].value {
            Value::U32(n) => if *n == 1 {
                Ok(Some(LauncherType::Application))
            } else if *n == 2 {
                Ok(Some(LauncherType::WebApplication))
            } else {
                Err(DecodeError::UnknownVariant)
            },
            _ => Err(DecodeError::SignatureMismatch),
        },
    }
}

fn push_entry(record: &mut Vec<Entry>, key: &str, value: Value)
    ensures
        record_view(final(record)@) == record_view(old(record)@) + seq![(key@, value@)],
{
    let ghost before = record_view(record@);
    record.push(Entry { key: key.to_owned(), value });
    assert(record_view(record@) =~= before + seq![(key@, value@)]);
}

fn push_bool(record: &mut Vec<Entry>, key: &str, value: Option<bool>)
    ensures
        record_view(final(record)@) == record_view(old(record)@) + entry_if(key@, bool_value(value)),
{
    match value {
        Some(b) => push_entry(record, key, Value::Bool(b)),
        None => {
            assert(record_view(record@) =~= record_view(record@) + entry_if(key@, bool_value(value)));
        },
    }
}

impl PrepareInstallOptions {
    /// Options with no field set, for the request that `handle_token` names.
    pub fn new(handle_token: HandleToken) -> (r: PrepareInstallOptions)
        ensures
            r@ == (OptionsView {
                handle_token: handle_token@,
                modal: None,
                launcher_type: None,
                target: None,
                editable_name: None,
                editable_icon: None,
            }),
    {
        PrepareInstallOptions {
            handle_token,
            modal: None,
            launcher_type: None,
            target: None,
            editable_name: None,
            editable_icon: None,
        }
    }

    /// The token that names the request.
    pub fn handle_token(&self) -> (r: &HandleToken)
        ensures
            r@ == self@.handle_token,
    {
        &self.handle_token
    }

    /// Sets whether the dialog should be a modal.
    pub fn modal(self, modal: Option<bool>) -> (r: PrepareInstallOptions)
        ensures
            r@ == (OptionsView { modal, ..self@ }),
    {
        PrepareInstallOptions { modal, ..self }
    }

    /// Sets the launcher type.
    pub fn launcher_type(self, launcher_type: LauncherType) -> (r: PrepareInstallOptions)
        ensures
            r@ == (OptionsView { launcher_type: Some(launcher_type), ..self@ }),
    {
        PrepareInstallOptions { launcher_type: Some(launcher_type), ..self }
    }

    /// The URL for a web application launcher; other launchers need none.
    pub fn target(self, target: Option<&str>) -> (r: PrepareInstallOptions)
        ensures
            r@ == (OptionsView {
                target: match target {
                    Some(t) => Some(t@),
                    None => None,
                },
                ..self@
            }),
    {
        let target = match target {
            Some(t) => Some(t.to_owned()),
            None => None,
        };
        PrepareInstallOptions { target, ..self }
    }

    /// Sets whether the name should be editable.
    pub fn editable_name(self, editable_name: Option<bool>) -> (r: PrepareInstallOptions)
        ensures
            r@ == (OptionsView { editable_name, ..self@ }),
    {
        PrepareInstallOptions { editable_name, ..self }
    }

    /// Sets whether the icon should be editable.
    pub fn editable_icon(self, editable_icon: Option<bool>) -> (r: PrepareInstallOptions)
        ensures
            r@ == (OptionsView { editable_icon, ..self@ }),
    {
        PrepareInstallOptions { editable_icon, ..self }
    }

    /// The wire record of the options.
    pub fn encode(&self) -> (r: Vec<Entry>)
        ensures
            record_view(r@) == options_record(self@),
    {
        let mut r: Vec<Entry> = Vec::new();
        assert(record_view(r@) =~= Seq::<(Seq<char>, ValueView)>::empty());
        push_entry(&mut r, "handle_token", Value::Str(self.handle_token.as_str().to_owned()));
        push_bool(&mut r, "modal", self.modal);
        match self.launcher_type {
            Some(t) => push_entry(&mut r, "launcher_type", Value::U32(t.bit())),
            None => {},
        }
        match &self.target {
            Some(t) => push_entry(&mut r, "target", Value::Str(t.clone())),
            None => {},
        }
        push_bool(&mut r, "editable_name", self.editable_name);
        push_bool(&mut r, "editable_icon", self.editable_icon);
        assert(record_view(r@) =~= options_record(self@));
        r
    }

    /// Reads options from a wire record.
    pub fn decode(record: &Vec<Entry>) -> (r: Result<PrepareInstallOptions, DecodeError>)
        ensures
            match r {
                Ok(o) => options_of(record_view(record@)) == Ok::<OptionsView, DecodeError>(o@),
                Err(e) => options_of(record_view(record@)) == Err::<OptionsView, DecodeError>(e),
            },
    {
        let handle_token = match read_required_str(record, "handle_token") {
            Ok(s) => HandleToken::from_string(s),
            Err(e) => return Err(e),
        };
        let modal = match read_optional_bool(record, "modal") {
            Ok(b) => b,
            Err(e) => return Err(e),
        };
        let launcher_type = match read_launcher_type(record, "launcher_type") {
            Ok(t) => t,
            Err(e) => return Err(e),
        };
        let target = match read_optional_str(record, "target") {
            Ok(s) => s,
            Err(e) => return Err(e),
        };
        let editable_name = match read_optional_bool(record, "editable_name") {
            Ok(b) => b,
            Err(e) => return Err(e),
        };
        let editable_icon = match read_optional_bool(record, "editable_icon") {
            Ok(b) => b,
            Err(e) => return Err(e),
        };
        Ok(
            PrepareInstallOptions {
                handle_token,
                modal,
                launcher_type,
                target,
                editable_name,
                editable_icon,
            },
        )
    }
}

/// The option names differ from one another.
proof fn lemma_keys_distinct()
    ensures
        "handle_token"@ != "modal"@,
        "handle_token"@ != "launcher_type"@,
        "handle_token"@ != "target"@,
        "handle_token"@ != "editable_name"@,
        "handle_token"@ != "editable_icon"@,
        "modal"@ != "launcher_type"@,
        "modal"@ != "target"@,
        "modal"@ != "editable_name"@,
        "modal"@ != "editable_icon"@,
        "launcher_type"@ != "target"@,
        "launcher_type"@ != "editable_name"@,
        "launcher_type"@ != "editable_icon"@,
        "target"@ != "editable_name"@,
        "target"@ != "editable_icon"@,
        "editable_name"@ != "editable_icon"@,
{
    let k0 = "handle_token"@;
    let k1 = "modal"@;
    let k2 = "launcher_type"@;
    let k3 = "target"@;
    let k4 = "editable_name"@;
    let k5 = "editable_icon"@;
    reveal_strlit("handle_token");
    reveal_strlit("modal");
    reveal_strlit("launcher_type");
    reveal_strlit("target");
    reveal_strlit("editable_name");
    reveal_strlit("editable_icon");
    assert(k0[0] != k1[0] && k0[0] != k2[0] && k0[0] != k3[0] && k0[0] != k4[0] && k0[0] != k5[0]);
    assert(k1[0] != k2[0] && k1[0] != k3[0] && k1[0] != k4[0] && k1[0] != k5[0]);
    assert(k2[0] != k3[0] && k2[0] != k4[0] && k2[0] != k5[0]);
    assert(k3[0] != k4[0] && k3[0] != k5[0]);
    assert(k4[9] != k5[9]);
}

/// What the wire record of a set of options holds under each key.
proof fn lemma_lookup_options(o: OptionsView, k: Seq<char>)
    ensures
        lookup(options_record(o), k) == (if k == "handle_token"@ {
            Some(ValueView::Str(o.handle_token))
        } else if k == "modal"@ {
            bool_value(o.modal)
        } else if k == "launcher_type"@ {
            type_value(o.launcher_type)
        } else if k == "target"@ {
            str_value(o.target)
        } else if k == "editable_name"@ {
            bool_value(o.editable_name)
        } else if k == "editable_icon"@ {
            bool_value(o.editable_icon)
        } else {
            None
        }),
{
    let k0 = "handle_token"@;
    let k1 = "modal"@;
    let k2 = "launcher_type"@;
    let k3 = "target"@;
    let k4 = "editable_name"@;
    let k5 = "editable_icon"@;
    lemma_keys_distinct();
    let e0 = entry_if(k0, Some(ValueView::Str(o.handle_token)));
    let e1 = entry_if(k1, bool_value(o.modal));
    let e2 = entry_if(k2, type_value(o.launcher_type));
    let e3 = entry_if(k3, str_value(o.target));
    let e4 = entry_if(k4, bool_value(o.editable_name));
    let e5 = entry_if(k5, bool_value(o.editable_icon));
    lemma_lookup_entry_if(k0, Some(ValueView::Str(o.handle_token)), k);
    lemma_lookup_entry_if(k1, bool_value(o.modal), k);
    lemma_lookup_entry_if(k2, type_value(o.launcher_type), k);
    lemma_lookup_entry_if(k3, str_value(o.target), k);
    lemma_lookup_entry_if(k4, bool_value(o.editable_name), k);
    lemma_lookup_entry_if(k5, bool_value(o.editable_icon), k);
    lemma_lookup_concat(e0, e1, k);
    lemma_lookup_concat(e0 + e1, e2, k);
    lemma_lookup_concat(e0 + e1 + e2, e3, k);
    lemma_lookup_concat(e0 + e1 + e2 + e3, e4, k);
    lemma_lookup_concat(e0 + e1 + e2 + e3 + e4, e5, k);
}

/// Decoding the wire record of a set of options gives back exactly the
/// fields that were set, and leaves the others unset.
pub proof fn lemma_options_round_trip(o: OptionsView)
    ensures
        options_of(options_record(o)) == Ok::<OptionsView, DecodeError>(o),
{
    lemma_keys_distinct();
    lemma_lookup_options(o, "handle_token"@);
    lemma_lookup_options(o, "modal"@);
    lemma_lookup_options(o, "launcher_type"@);
    lemma_lookup_options(o, "target"@);
    lemma_lookup_options(o, "editable_name"@);
    lemma_lookup_options(o, "editable_icon"@);
    match o.launcher_type {
        Some(LauncherType::Application) => {},
        Some(LauncherType::WebApplication) => {},
        None => {},
    }
    match o.modal {
        Some(_) => {},
        None => {},
    }
    match o.target {
        Some(_) => {},
        None => {},
    }
    match o.editable_name {
        Some(_) => {},
        None => {},
    }
    match o.editable_icon {
        Some(_) => {},
        None => {},
    }
}

} // verus!
