//! The dynamic launcher interface: what the client decides around each call.
//! The bus itself is driven by the caller, which issues the encoded calls and
//! hands back the replies and completion signals.
use vstd::prelude::*;
use crate::launcher::{
    has_bit, icon_data, icon_kind, launcher_icon_of, Icon, IconReply, IconType, IconView,
    LauncherIcon, LauncherType, LauncherTypes,
};
use crate::options::{options_record, read_required_str, required_str, PrepareInstallOptions};
use crate::request::{
    cancel_spec, deliver_spec, delivery_spec, lost_spec, outcome_of, outcome_view, status_of, take_spec,
    taken_spec, Delivery, Error, Outcome, OutcomeView, RequestTracker, ResponseStatus, SlotView,
};
use crate::token::{token_text, HandleToken, TokenGenerator};
use crate::wire::{lookup, record_view, DecodeError, Entry, Value, ValueView};

verus! {

/// The arguments of a prepare-install call, in wire form: the parent window,
/// the proposed name, the icon as a kind tag and a value, and the options record.
#[derive(Debug, PartialEq, Eq)]
pub struct PrepareInstallCall {
    pub parent_window: String,
    pub name: String,
    pub icon_kind: String,
    pub icon_data: Value,
    pub options: Vec<Entry>,
}

/// The name and install token that a completed prepare-install call carries.
pub open spec fn install_result_of(r: Seq<(Seq<char>, ValueView)>) -> Result<(Seq<char>, Seq<char>), DecodeError> {
    match required_str(lookup(r, "name"@)) {
        Err(e) => Err(e),
        Ok(name) => match required_str(lookup(r, "token"@)) {
            Err(e) => Err(e),
            Ok(token) => Ok((name, token)),
        },
    }
}

/// What a prepare-install request ended with, as the caller sees it.
pub open spec fn install_response_of(o: OutcomeView) -> Result<(Seq<char>, Seq<char>), Error> {
    match o {
        Err(e) => Err(e),
        Ok(r) => match install_result_of(r) {
            Ok(p) => Ok(p),
            Err(d) => Err(Error::Decode(d)),
        },
    }
}

/// The outcome that a completion signal with response code `code` carries.
pub open spec fn signal_outcome(code: u32, results: Seq<(Seq<char>, ValueView)>) -> OutcomeView {
    match status_of(code) {
        Ok(s) => outcome_of(s, results),
        Err(d) => Err(Error::Decode(d)),
    }
}

/// The contents of a name and token pair, or of the error in its place.
pub open spec fn pair_result_view(r: Result<(String, String), Error>) -> Result<(Seq<char>, Seq<char>), Error> {
    match r {
        Ok(p) => Ok((p.0@, p.1@)),
        Err(e) => Err(e),
    }
}

/// Reads the name and install token from the results of a completed
/// prepare-install request.
pub fn decode_install_result(results: &Vec<Entry>) -> (r: Result<(String, String), DecodeError>)
    ensures
        match r {
            Ok(p) => install_result_of(record_view(results@)) == Ok::<(Seq<char>, Seq<char>), DecodeError>((p.0@, p.1@)),
            Err(e) => install_result_of(record_view(results@)) == Err::<(Seq<char>, Seq<char>), DecodeError>(e),
        },
{
    let name = match read_required_str(results, "name") {
        Ok(s) => s,
        Err(e) => return Err(e),
    };
    let token = match read_required_str(results, "token") {
        Ok(s) => s,
        Err(e) => return Err(e),
    };
    Ok((name, token))
}

/// The typed answer of a prepare-install request from its outcome.
pub fn install_response(outcome: Outcome) -> (r: Result<(String, String), Error>)
    ensures
        pair_result_view(r) == install_response_of(outcome_view(outcome)),
{
    match outcome {
        Err(e) => Err(e),
        Ok(results) => match decode_install_result(&results) {
            Ok(p) => Ok(p),
            Err(d) => Err(Error::Decode(d)),
        },
    }
}

/// The client of the dynamic launcher interface, which lets sandboxed
/// applications install launchers such as web applications. It owns the
/// generator of handle tokens and the tracker of pending requests.
pub struct DynamicLauncherProxy {
    tokens: TokenGenerator,
    requests: RequestTracker,
}

impl DynamicLauncherProxy {
    /// The proxy's bookkeeping is consistent.
    pub closed spec fn wf(&self) -> bool {
        self.requests.wf()
    }

    /// The requests it tracks, under their request handles.
    pub closed spec fn pending(&self) -> Map<Seq<char>, SlotView> {
        self.requests@
    }

    /// The tokens it has handed out.
    pub closed spec fn issued(&self) -> Set<Seq<char>> {
        self.tokens.issued()
    }

    /// How many tokens it has handed out.
    pub closed spec fn token_count(&self) -> nat {
        self.tokens.count()
    }

    /// The text that all its tokens start with.
    pub closed spec fn token_prefix(&self) -> Seq<char> {
        self.tokens.prefix()
    }

    /// A proxy with no request and no token issued.
    pub fn new() -> (r: DynamicLauncherProxy)
        ensures
            r.wf(),
            r.pending() == Map::<Seq<char>, SlotView>::empty(),
            r.issued() == Set::<Seq<char>>::empty(),
            r.token_count() == 0,
            r.token_prefix() == Seq::<char>::empty(),
    {
        DynamicLauncherProxy { tokens: TokenGenerator::new(), requests: RequestTracker::new() }
    }

    /// A proxy with no request, whose handle tokens all start with `prefix`:
    /// a prefix drawn once per process keeps the tokens of several proxies apart.
    pub fn with_token_prefix(prefix: String) -> (r: DynamicLauncherProxy)
        ensures
            r.wf(),
            r.pending() == Map::<Seq<char>, SlotView>::empty(),
            r.issued() == Set::<Seq<char>>::empty(),
            r.token_count() == 0,
            r.token_prefix() == prefix@,
    {
        DynamicLauncherProxy {
            tokens: TokenGenerator::with_prefix(prefix),
            requests: RequestTracker::new(),
        }
    }

    /// A handle token that differs from every one handed out before, or
    /// nothing once the counter behind them has run out.
    pub fn new_token(&mut self) -> (r: Option<HandleToken>)
        requires
            old(self).wf(),
        ensures
            final(self).wf(),
            final(self).pending() == old(self).pending(),
            final(self).token_prefix() == old(self).token_prefix(),
            r is Some <==> old(self).token_count() < u64::MAX,
            match r {
                Some(t) => t@ == token_text(old(self).token_prefix(), old(self).token_count())
                    && !old(self).issued().contains(t@) && final(self).issued() == old(
                    self,
                ).issued().insert(t@) && final(self).token_count() == old(self).token_count() + 1,
                None => final(self).issued() == old(self).issued() && final(self).token_count()
                    == old(self).token_count(),
            },
    {
        if self.tokens.exhausted() {
            None
        } else {
            Some(self.tokens.new_token())
        }
    }

    /// Options for a new prepare-install request, under a fresh handle token.
    pub fn prepare_install_options(&mut self) -> (r: Option<PrepareInstallOptions>)
        requires
            old(self).wf(),
        ensures
            final(self).wf(),
            final(self).pending() == old(self).pending(),
            final(self).token_prefix() == old(self).token_prefix(),
            r is Some <==> old(self).token_count() < u64::MAX,
            match r {
                Some(o) => o@.handle_token == token_text(
                    old(self).token_prefix(),
                    old(self).token_count(),
                ) && !old(self).issued().contains(o@.handle_token) && final(self).issued()
                    == old(self).issued().insert(o@.handle_token) && final(self).token_count()
                    == old(self).token_count() + 1 && o@.modal is None && o@.launcher_type is None
                    && o@.target is None && o@.editable_name is None && o@.editable_icon is None,
                None => final(self).issued() == old(self).issued() && final(self).token_count()
                    == old(self).token_count(),
            },
    {
        match self.new_token() {
            Some(t) => Some(PrepareInstallOptions::new(t)),
            None => None,
        }
    }

    /// The wire arguments of a prepare-install call. The call returns a
    /// request handle, to be registered with [`Self::await_response`].
    pub fn prepare_install(
        &self,
        parent_window: &str,
        name: &str,
        icon: Icon,
        options: &PrepareInstallOptions,
    ) -> (r: PrepareInstallCall)
        ensures
            r.parent_window@ == parent_window@,
            r.name@ == name@,
            r.icon_kind@ == icon_kind(icon@),
            r.icon_data@ == icon_data(icon@),
            record_view(r.options@) == options_record(options@),
    {
        let (icon_kind, icon_data) = icon.encode();
        PrepareInstallCall {
            parent_window: parent_window.to_owned(),
            name: name.to_owned(),
            icon_kind,
            icon_data,
            options: options.encode(),
        }
    }

    /// Starts waiting for the completion signal on the request handle that
    /// an interactive call returned.
    pub fn await_response(&mut self, handle: String) -> (r: Result<(), Error>)
        requires
            old(self).wf(),
        ensures
            final(self).wf(),
            final(self).issued() == old(self).issued(),
            final(self).token_count() == old(self).token_count(),
            final(self).token_prefix() == old(self).token_prefix(),
            old(self).pending().contains_key(handle@) ==> r == Err::<(), Error>(
                Error::DuplicateWaiter,
            ) && final(self).pending() == old(self).pending(),
            !old(self).pending().contains_key(handle@) ==> r is Ok && final(self).pending()
                == old(self).pending().insert(handle@, SlotView::Awaiting),
    {
        self.requests.register(handle)
    }

    /// Takes in a completion signal: its request handle, response code and
    /// results. A response code that names no status resolves the request
    /// with a decode error, so that its waiter does not hang.
    pub fn on_response(&mut self, handle: &String, code: u32, results: Vec<Entry>) -> (r: Delivery)
        requires
            old(self).wf(),
        ensures
            final(self).wf(),
            final(self).issued() == old(self).issued(),
            final(self).token_count() == old(self).token_count(),
            final(self).token_prefix() == old(self).token_prefix(),
            r == delivery_spec(old(self).pending(), handle@),
            final(self).pending() == deliver_spec(
                old(self).pending(),
                handle@,
                signal_outcome(code, record_view(results@)),
            ),
    {
        let outcome: Outcome = match ResponseStatus::from_code(code) {
            Err(d) => Err(Error::Decode(d)),
            Ok(ResponseStatus::Success) => Ok(results),
            Ok(s) => Err(Error::RequestDeclined(s)),
        };
        self.requests.deliver(handle, outcome)
    }

    /// Gives up waiting for the request under `handle`.
    pub fn cancel(&mut self, handle: &String) -> (r: bool)
        requires
            old(self).wf(),
        ensures
            final(self).wf(),
            final(self).issued() == old(self).issued(),
            final(self).token_count() == old(self).token_count(),
            final(self).token_prefix() == old(self).token_prefix(),
            final(self).pending() == cancel_spec(old(self).pending(), handle@),
            r == (old(self).pending().contains_key(handle@) && old(self).pending()[handle@] is Awaiting),
    {
        self.requests.cancel(handle)
    }

    /// Resolves every pending request with an error once the connection is gone.
    pub fn connection_lost(&mut self)
        requires
            old(self).wf(),
        ensures
            final(self).wf(),
            final(self).issued() == old(self).issued(),
            final(self).token_count() == old(self).token_count(),
            final(self).token_prefix() == old(self).token_prefix(),
            final(self).pending() == lost_spec(old(self).pending()),
    {
        self.requests.connection_lost()
    }

    /// The name and install token of a completed prepare-install request, or
    /// the error it ended with; nothing while it has not completed.
    pub fn prepare_install_result(&mut self, handle: &String) -> (r: Option<Result<(String, String), Error>>)
        requires
            old(self).wf(),
        ensures
            final(self).wf(),
            final(self).issued() == old(self).issued(),
            final(self).token_count() == old(self).token_count(),
            final(self).token_prefix() == old(self).token_prefix(),
            final(self).pending() == take_spec(old(self).pending(), handle@),
            match r {
                Some(x) => taken_spec(old(self).pending(), handle@) is Some && pair_result_view(x)
                    == install_response_of(taken_spec(old(self).pending(), handle@).unwrap()),
                None => taken_spec(old(self).pending(), handle@) is None,
            },
    {
        match self.requests.take(handle) {
            None => None,
            Some(o) => Some(install_response(o)),
        }
    }

    /// Reads the supported-launcher-types property from its packed value.
    pub fn supported_launcher_types(bits: u32) -> (r: Result<LauncherTypes, Error>)
        ensures
            bits < 4 <==> r.is_ok(),
            bits >= 4 ==> r == Err::<LauncherTypes, Error>(Error::Decode(DecodeError::UnknownVariant)),
            r.is_ok() ==> forall|t: LauncherType| #[trigger] r.unwrap()@.contains(t) == has_bit(bits, t),
    {
        match LauncherTypes::from_bits(bits) {
            Ok(t) => Ok(t),
            Err(d) => Err(Error::Decode(d)),
        }
    }

    /// Reads the reply of a get-icon call.
    pub fn icon(reply: IconReply) -> (r: Result<LauncherIcon, Error>)
        ensures
            match r {
                Ok(i) => launcher_icon_of(reply@) == Ok::<(IconView, IconType, u32), DecodeError>(i@),
                Err(e) => exists|d: DecodeError|
                    e == Error::Decode(d) && launcher_icon_of(reply@) == Err::<
                        (IconView, IconType, u32),
                        DecodeError,
                    >(d),
            },
    {
        match LauncherIcon::decode(reply) {
            Ok(i) => Ok(i),
            Err(d) => Err(Error::Decode(d)),
        }
    }
}

} // verus!
