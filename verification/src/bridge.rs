//! The rules of the bridge between a renderer's synchronous template
//! functions and the network calls behind them.
//!
//! A template function is called with named arguments and must return a value
//! at once. The call is opened from its arguments; its caller then resolves the
//! argument over the network, in a worker of its own, and blocks until the
//! worker hands the outcome back; the call is finished with that outcome. A
//! failure on the way is absorbed here: the finished call gives the function's
//! fixed fallback value, never an error.

use vstd::prelude::*;
use vstd::string::StringExecFns;

verus! {

/// The status with which a page answers when it is there.
pub const STATUS_OK: u16 = 200;

/// A value handed to a template function or returned by one.
#[derive(Debug, PartialEq, Eq)]
pub enum BridgeValue {
    /// A piece of text.
    Text(String),
    /// A truth value.
    Flag(bool),
    /// Anything that is neither text nor a truth value.
    Other,
}

/// What a `BridgeValue` holds.
pub enum BridgeValueView {
    Text(Seq<char>),
    Flag(bool),
    Other,
}

impl View for BridgeValue {
    type V = BridgeValueView;

    open spec fn view(&self) -> BridgeValueView {
        match self {
            BridgeValue::Text(s) => BridgeValueView::Text(s@),
            BridgeValue::Flag(b) => BridgeValueView::Flag(*b),
            BridgeValue::Other => BridgeValueView::Other,
        }
    }
}

impl Clone for BridgeValue {
    fn clone(&self) -> (v: BridgeValue)
        ensures
            v@ == self@,
    {
        match self {
            BridgeValue::Text(s) => BridgeValue::Text(s.clone()),
            BridgeValue::Flag(b) => BridgeValue::Flag(*b),
            BridgeValue::Other => BridgeValue::Other,
        }
    }
}

/// The mapping that a list of named values stands for. A name that is given
/// more than once has the value given last.
spec fn named(entries: Seq<(String, BridgeValue)>) -> Map<Seq<char>, BridgeValueView>
    decreases entries.len(),
{
    if entries.len() == 0 {
        Map::empty()
    } else {
        named(entries.drop_last()).insert(entries.last().0@, entries.last().1@)
    }
}

/// The named arguments of one call of a template function.
#[derive(Debug)]
pub struct BridgeArgs {
    entries: Vec<(String, BridgeValue)>,
}

impl View for BridgeArgs {
    type V = Map<Seq<char>, BridgeValueView>;

    closed spec fn view(&self) -> Map<Seq<char>, BridgeValueView> {
        named(self.entries@)
    }
}

impl BridgeArgs {
    /// No arguments.
    pub fn new() -> (args: BridgeArgs)
        ensures
            args@ == Map::<Seq<char>, BridgeValueView>::empty(),
    {
        BridgeArgs { entries: Vec::new() }
    }

    /// Gives `name` the value `value`, in place of any value it had.
    pub fn insert(&mut self, name: String, value: BridgeValue)
        ensures
            final(self)@ == old(self)@.insert(name@, value@),
    {
        let ghost before = self.entries@;
        self.entries.push((name, value));
        assert(self.entries@.drop_last() =~= before);
    }

    /// The value of `name`, if it has one.
    pub fn get(&self, name: &str) -> (value: Option<&BridgeValue>)
        ensures
            match value {
                Some(v) => self@.contains_key(name@) && self@[name@] == v@,
                None => !self@.contains_key(name@),
            },
    {
        let wanted: String = name.to_owned();
        let mut k: usize = self.entries.len();
        assert(self.entries@.take(k as int) =~= self.entries@);
        while k > 0
            invariant
                k <= self.entries@.len(),
                wanted@ == name@,
                named(self.entries@).contains_key(name@) <==> named(
                    self.entries@.take(k as int),
                ).contains_key(name@),
                named(self.entries@).contains_key(name@) ==> named(self.entries@)[name@] == named(
                    self.entries@.take(k as int),
                )[name@],
            decreases k,
        {
            k = k - 1;
            let ghost upto = self.entries@.take(k + 1);
            assert(upto.drop_last() =~= self.entries@.take(k as int));
            if self.entries[k].0 == wanted {
                return Some(&self.entries[k].1);
            }
        }
        None
    }
}

/// The template functions that go through the bridge.
#[derive(Clone, Copy, Debug, PartialEq, Eq, Structural)]
pub enum BridgeFunction {
    /// Resolves a user's identifier to the user's full name.
    GetUsername,
    /// Tells whether a page at an address answers with success.
    UrlOk,
}

impl BridgeFunction {
    /// The name under which the function is registered with the renderer.
    pub open spec fn registered_name(self) -> Seq<char> {
        match self {
            BridgeFunction::GetUsername => "getusername"@,
            BridgeFunction::UrlOk => "url_ok"@,
        }
    }

    /// The name of the one argument that the function reads.
    pub open spec fn argument_name(self) -> Seq<char> {
        match self {
            BridgeFunction::GetUsername => "id"@,
            BridgeFunction::UrlOk => "url"@,
        }
    }

    /// The value that the function returns when its network call fails.
    pub open spec fn fallback_view(self) -> BridgeValueView {
        match self {
            BridgeFunction::GetUsername => BridgeValueView::Text("None"@),
            BridgeFunction::UrlOk => BridgeValueView::Flag(false),
        }
    }

    /// What the function says when it is called without its argument.
    pub open spec fn complaint(self) -> Seq<char> {
        match self {
            BridgeFunction::GetUsername => "No 'id' argument provided"@,
            BridgeFunction::UrlOk => "No 'url' argument provided"@,
        }
    }

    /// The name under which the function is registered with the renderer.
    pub fn name(self) -> (s: &'static str)
        ensures
            s@ == self.registered_name(),
    {
        match self {
            BridgeFunction::GetUsername => "getusername",
            BridgeFunction::UrlOk => "url_ok",
        }
    }

    /// The name of the one argument that the function reads.
    pub fn argument(self) -> (s: &'static str)
        ensures
            s@ == self.argument_name(),
    {
        match self {
            BridgeFunction::GetUsername => "id",
            BridgeFunction::UrlOk => "url",
        }
    }

    /// The value that the function returns when its network call fails.
    pub fn fallback(self) -> (v: BridgeValue)
        ensures
            v@ == self.fallback_view(),
    {
        match self {
            BridgeFunction::GetUsername => BridgeValue::Text(String::from_str("None")),
            BridgeFunction::UrlOk => BridgeValue::Flag(false),
        }
    }

    /// Both functions, in the order in which they are registered.
    pub fn all() -> (v: Vec<BridgeFunction>)
        ensures
            v@ == seq![BridgeFunction::GetUsername, BridgeFunction::UrlOk],
    {
        let mut v: Vec<BridgeFunction> = Vec::new();
        v.push(BridgeFunction::GetUsername);
        v.push(BridgeFunction::UrlOk);
        v
    }
}

/// Why a call could not be opened.
#[derive(Clone, Copy, Debug, PartialEq, Eq, Structural)]
pub enum BridgeError {
    /// The function's argument is missing, or is not text.
    MissingArgument(BridgeFunction),
}

impl BridgeError {
    /// The function that was called.
    pub fn function(self) -> (f: BridgeFunction)
        ensures
            self == BridgeError::MissingArgument(f),
    {
        match self {
            BridgeError::MissingArgument(f) => f,
        }
    }

    /// The error in words, as the renderer reports it.
    pub fn message(self) -> (s: String)
        ensures
            self matches BridgeError::MissingArgument(f) && s@ == f.complaint(),
    {
        match self {
            BridgeError::MissingArgument(BridgeFunction::GetUsername) => String::from_str(
                "No 'id' argument provided",
            ),
            BridgeError::MissingArgument(BridgeFunction::UrlOk) => String::from_str(
                "No 'url' argument provided",
            ),
        }
    }
}

/// What the network call behind a template function brought back.
#[derive(Debug)]
pub enum Resolution {
    /// The profile of a user, with the full name if the profile has one.
    Name(Option<String>),
    /// The status with which a page answered.
    Status(u16),
}

/// The value that a function returns for the outcome of its network call.
///
/// A user's full name is returned as it is; a profile without one, and any
/// failure, give the text `None`. A page is there when it answers with status
/// 200; any other status, and any failure, give `false`. An outcome of the
/// wrong kind counts as a failure.
pub open spec fn resolved<E>(function: BridgeFunction, outcome: Result<Resolution, E>) -> BridgeValueView {
    match (function, outcome) {
        (BridgeFunction::GetUsername, Ok(Resolution::Name(Some(name)))) => BridgeValueView::Text(
            name@,
        ),
        (BridgeFunction::UrlOk, Ok(Resolution::Status(status))) => BridgeValueView::Flag(
            status == STATUS_OK,
        ),
        _ => function.fallback_view(),
    }
}

/// What a `BridgeCall` holds: the function called and the text of its argument.
pub struct BridgeCallView {
    pub function: BridgeFunction,
    pub argument: Seq<char>,
}

/// One call of a template function, from the moment its argument was read
/// until its value is returned.
#[derive(Debug)]
pub struct BridgeCall {
    function: BridgeFunction,
    argument: String,
}

impl View for BridgeCall {
    type V = BridgeCallView;

    closed spec fn view(&self) -> BridgeCallView {
        BridgeCallView { function: self.function, argument: self.argument@ }
    }
}

/// Whether a call of `function` with `args` can be opened: the function's
/// argument is there and is text.
pub open spec fn has_argument(function: BridgeFunction, args: Map<Seq<char>, BridgeValueView>) -> bool {
    args.contains_key(function.argument_name()) && args[function.argument_name()] is Text
}

impl BridgeCall {
    /// Opens a call of `function` with the named arguments `args`.
    ///
    /// The call is opened exactly when the function's argument is among them
    /// and is text; it then holds that text. Otherwise the function's
    /// argument is reported missing, and no network call is to be made.
    pub fn open(function: BridgeFunction, args: &BridgeArgs) -> (call: Result<BridgeCall, BridgeError>)
        ensures
            match call {
                Ok(c) => has_argument(function, args@) && c@ == (BridgeCallView {
                    function,
                    argument: args@[function.argument_name()]->Text_0,
                }),
                Err(e) => !has_argument(function, args@) && e == BridgeError::MissingArgument(
                    function,
                ),
            },
    {
        match args.get(function.argument()) {
            Some(BridgeValue::Text(text)) => Ok(BridgeCall { function, argument: text.clone() }),
            _ => Err(BridgeError::MissingArgument(function)),
        }
    }

    /// The function that was called.
    pub fn function(&self) -> (f: BridgeFunction)
        ensures
            f == self@.function,
    {
        self.function
    }

    /// The text to resolve: a user's identifier, or an address.
    pub fn argument(&self) -> (s: &String)
        ensures
            s@ == self@.argument,
    {
        &self.argument
    }

    /// Ends the call with the outcome of its network call and gives the value
    /// that the function returns. A value always comes out: a failure gives
    /// the function's fallback.
    pub fn finish<E>(self, outcome: Result<Resolution, E>) -> (value: BridgeValue)
        ensures
            value@ == resolved(self@.function, outcome),
            outcome is Err ==> value@ == self@.function.fallback_view(),
    {
        match (self.function, outcome) {
            (BridgeFunction::GetUsername, Ok(Resolution::Name(Some(name)))) => BridgeValue::Text(
                name,
            ),
            (BridgeFunction::UrlOk, Ok(Resolution::Status(status))) => BridgeValue::Flag(
                status == STATUS_OK,
            ),
            (function, _) => function.fallback(),
        }
    }
}

/// A failure never leaves the bridge. Whatever the error of a failed network
/// call, the function returns its fallback: the text `None` for a user's name,
/// `false` for a page. And whatever the outcome, failed or not, a user's name
/// comes back as text and a page's state as a truth value.
pub proof fn lemma_failure_gives_fallback<E>(function: BridgeFunction, outcome: Result<Resolution, E>)
    ensures
        outcome is Err ==> resolved(function, outcome) == function.fallback_view(),
        function == BridgeFunction::GetUsername ==> resolved(function, outcome) is Text,
        function == BridgeFunction::UrlOk ==> resolved(function, outcome) is Flag,
        function == BridgeFunction::GetUsername && outcome is Err ==> resolved(function, outcome)
            == BridgeValueView::Text("None"@),
        function == BridgeFunction::UrlOk && outcome is Err ==> resolved(function, outcome)
            == BridgeValueView::Flag(false),
{
}

} // verus!
