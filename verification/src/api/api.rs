//! The dispatcher: which handler a request below `/api` goes to, and what
//! becomes of the request when a handler is busy, declines or answers.

use crate::api::{answer_view, Method};
use crate::handlers::options::{handle_options, options_response};
use crate::request::{ReqTypes, Request, RequestView};
use crate::response::{basic_response, Response, ResponseView};
use crate::text::{chars_of, copy_range, find, find_chars, has_prefix, lemma_find_from, starts_with};
use vstd::prelude::*;

verus! {

/// The marker that the paths of the dispatcher hold: `/api`.
pub open spec fn api_marker() -> Seq<char> {
    seq!['/', 'a', 'p', 'i']
}

/// The path that the handlers see: what follows the first `/api` of the
/// request path. There is none where the path holds no `/api`, or nothing
/// after it.
pub open spec fn effective_endpoint(path: Seq<char>) -> Option<Seq<char>> {
    match find(path, api_marker()) {
        Some(i) => if i + 4 < path.len() {
            Some(path.skip(i + 4))
        } else {
            None
        },
        None => None,
    }
}

/// The first handler at or after position `from` whose prefix the path
/// begins with.
pub open spec fn first_match(prefixes: Seq<Seq<char>>, effective: Seq<char>, from: int) -> Option<
    int,
>
    decreases prefixes.len() - from,
{
    if from < 0 || from >= prefixes.len() {
        None
    } else if starts_with(effective, prefixes[from]) {
        Some(from)
    } else {
        first_match(prefixes, effective, from + 1)
    }
}

/// `first_match` returns the least position at or after `from` whose prefix
/// the path begins with.
pub proof fn lemma_first_match(prefixes: Seq<Seq<char>>, effective: Seq<char>, from: int)
    requires
        0 <= from,
    ensures
        match first_match(prefixes, effective, from) {
            Some(i) => from <= i < prefixes.len() && starts_with(effective, prefixes[i])
                && forall|j: int| from <= j < i ==> !starts_with(effective, prefixes[j]),
            None => forall|j: int|
                from <= j < prefixes.len() ==> !starts_with(effective, prefixes[j]),
        },
    decreases prefixes.len() - from,
{
    if from < prefixes.len() && !starts_with(effective, prefixes[from]) {
        lemma_first_match(prefixes, effective, from + 1);
    }
}

/// How the dispatch of a request ends.
pub enum ApiOutcome {
    /// The request is answered with this response.
    Reply(Response),
    /// No handler answered.
    Unanswered,
    /// A handler that the request was for is busy: the request is given up
    /// and gets no response at all.
    Dropped,
}

/// What the dispatcher asks for next.
pub enum ApiAction {
    /// Try to take the lock of the handler at this position, without waiting.
    Lock(usize),
    /// Call `handle_get` of the handler at this position, whose lock is held.
    Get(usize),
    /// Call `handle_post` of the handler at this position, whose lock is held.
    Post(usize),
    /// Nothing more: the dispatch has ended.
    Done(ApiOutcome),
}

/// What happened since the dispatcher last asked for something.
pub enum ApiEvent {
    /// Nothing yet: the dispatch begins.
    Begin,
    /// The lock that was asked for is held by someone else.
    Busy,
    /// The lock that was asked for has been taken.
    Locked,
    /// The handler that was called returned this.
    Answered(Option<Response>),
}

/// What the outcome of a dispatch is.
pub enum OutcomeView {
    Reply(ResponseView),
    Unanswered,
    Dropped,
}

/// What an action of the dispatcher is.
pub enum ActionView {
    Lock(int),
    Get(int),
    Post(int),
    Done(OutcomeView),
}

/// What an event of a dispatch is.
pub enum EventView {
    Begin,
    Busy,
    Locked,
    Answered(Option<ResponseView>),
}

impl View for ApiOutcome {
    type V = OutcomeView;

    open spec fn view(&self) -> OutcomeView {
        match self {
            ApiOutcome::Reply(r) => OutcomeView::Reply(r@),
            ApiOutcome::Unanswered => OutcomeView::Unanswered,
            ApiOutcome::Dropped => OutcomeView::Dropped,
        }
    }
}

impl View for ApiAction {
    type V = ActionView;

    open spec fn view(&self) -> ActionView {
        match self {
            ApiAction::Lock(i) => ActionView::Lock(*i as int),
            ApiAction::Get(i) => ActionView::Get(*i as int),
            ApiAction::Post(i) => ActionView::Post(*i as int),
            ApiAction::Done(o) => ActionView::Done(o@),
        }
    }
}

impl View for ApiEvent {
    type V = EventView;

    open spec fn view(&self) -> EventView {
        match self {
            ApiEvent::Begin => EventView::Begin,
            ApiEvent::Busy => EventView::Busy,
            ApiEvent::Locked => EventView::Locked,
            ApiEvent::Answered(Some(r)) => EventView::Answered(Some(r@)),
            ApiEvent::Answered(None) => EventView::Answered(None),
        }
    }
}

/// The scan for the next handler of a path, from position `from` on: the
/// lock of the first handler whose prefix matches is asked for; without such
/// a handler the request stays unanswered.
pub open spec fn scan(prefixes: Seq<Seq<char>>, effective: Seq<char>, from: int) -> ActionView {
    match first_match(prefixes, effective, from) {
        Some(i) => ActionView::Lock(i),
        None => ActionView::Done(OutcomeView::Unanswered),
    }
}

/// What the dispatcher asks for after an event. `at` is the position of the
/// handler that the last action was about.
///
/// At the beginning a path without anything after `/api` is answered with
/// status 400, any other path starts the scan. A busy handler ends the
/// dispatch without a response. Once a lock is taken, `GET` and `POST` call
/// the handler and `OPTIONS` is answered at once. A handler that answers ends
/// the dispatch; one that declines sends the scan on behind it.
pub open spec fn next_action(
    prefixes: Seq<Seq<char>>,
    req: RequestView,
    at: int,
    event: EventView,
) -> ActionView {
    match event {
        EventView::Begin => match effective_endpoint(req.endpoint) {
            None => ActionView::Done(OutcomeView::Reply(basic_response(400, "Bad Request"@))),
            Some(e) => scan(prefixes, e, 0),
        },
        EventView::Busy => ActionView::Done(OutcomeView::Dropped),
        EventView::Locked => match req.req_type {
            ReqTypes::GET => ActionView::Get(at),
            ReqTypes::POST => ActionView::Post(at),
            ReqTypes::OPTIONS => ActionView::Done(OutcomeView::Reply(options_response())),
        },
        EventView::Answered(Some(r)) => ActionView::Done(OutcomeView::Reply(r)),
        EventView::Answered(None) => match effective_endpoint(req.endpoint) {
            None => ActionView::Done(OutcomeView::Unanswered),
            Some(e) => scan(prefixes, e, at + 1),
        },
    }
}

/// The path that the handlers see, for a request path.
pub fn effective_path(path: &str) -> (r: Option<Vec<char>>)
    ensures
        match r {
            Some(e) => effective_endpoint(path@) == Some(e@),
            None => effective_endpoint(path@) is None,
        },
{
    let chars = chars_of(path);
    let marker: [char; 4] = ['/', 'a', 'p', 'i'];
    assert(marker@ =~= api_marker());
    let len = chars.len();
    match find_chars(chars.as_slice(), marker.as_slice(), 0) {
        Some(i) => {
            proof {
                lemma_find_from(chars@, marker@, 0);
            }
            if i + 4 < len {
                assert(chars@.subrange(i + 4, len as int) =~= chars@.skip(i + 4));
                Some(copy_range(chars.as_slice(), i + 4, len))
            } else {
                None
            }
        },
        None => None,
    }
}

/// The registry of the dispatcher: the handlers in the order in which they
/// were registered, each under its prefix. `T` is whatever stands for a
/// handler: the handler itself, or a lock around it.
pub struct Api<T> {
    endpoints: Vec<(String, T)>,
}

impl<T> Api<T> {
    /// The prefixes of the registered handlers, in their order.
    pub closed spec fn prefixes(&self) -> Seq<Seq<char>> {
        Seq::new(self.endpoints@.len(), |i: int| self.endpoints@[i].0@)
    }

    /// The registered handlers, in their order.
    pub closed spec fn handlers(&self) -> Seq<T> {
        Seq::new(self.endpoints@.len(), |i: int| self.endpoints@[i].1)
    }

    /// A registry without handlers.
    pub fn new() -> (r: Self)
        ensures
            r.prefixes() == Seq::<Seq<char>>::empty(),
            r.handlers() == Seq::<T>::empty(),
    {
        let r = Api { endpoints: Vec::new() };
        assert(r.prefixes() =~= Seq::<Seq<char>>::empty());
        assert(r.handlers() =~= Seq::<T>::empty());
        r
    }

    /// Registers a handler under a prefix, behind those that are there.
    pub fn register(&mut self, prefix: String, handler: T)
        ensures
            final(self).prefixes() == old(self).prefixes().push(prefix@),
            final(self).handlers() == old(self).handlers().push(handler),
    {
        self.endpoints.push((prefix, handler));
        assert(self.prefixes() =~= old(self).prefixes().push(prefix@));
        assert(self.handlers() =~= old(self).handlers().push(handler));
    }

    /// The number of registered handlers.
    pub fn len(&self) -> (n: usize)
        ensures
            n == self.prefixes().len(),
            n == self.handlers().len(),
    {
        self.endpoints.len()
    }

    /// The prefix of the handler at position `i`.
    pub fn prefix_at(&self, i: usize) -> (p: &str)
        requires
            i < self.prefixes().len(),
        ensures
            p@ == self.prefixes()[i as int],
    {
        self.endpoints[i].0.as_str()
    }

    /// The handler at position `i`.
    pub fn handler_at(&self, i: usize) -> (h: &T)
        requires
            i < self.handlers().len(),
        ensures
            *h == self.handlers()[i as int],
    {
        &self.endpoints[i].1
    }

    fn scan_from(&self, effective: &Vec<char>, from: usize) -> (r: ApiAction)
        ensures
            r@ == scan(self.prefixes(), effective@, from as int),
    {
        let mut i: usize = from;
        while i < self.endpoints.len()
            invariant
                from <= i,
                first_match(self.prefixes(), effective@, from as int) == first_match(
                    self.prefixes(),
                    effective@,
                    i as int,
                ),
            decreases self.endpoints@.len() - i,
        {
            let prefix = chars_of(self.endpoints[i].0.as_str());
            if has_prefix(effective.as_slice(), prefix.as_slice()) {
                return ApiAction::Lock(i);
            }
            i += 1;
        }
        ApiAction::Done(ApiOutcome::Unanswered)
    }

    /// What to do next in the dispatch of `req`, after `event`. `at` is the
    /// position of the handler that the last action was about; at the
    /// beginning it counts for nothing.
    pub fn next(&self, req: &Request, at: usize, event: ApiEvent) -> (r: ApiAction)
        ensures
            r@ == next_action(self.prefixes(), req@, at as int, event@),
    {
        match event {
            ApiEvent::Begin => match effective_path(req.get_endpoint()) {
                None => ApiAction::Done(ApiOutcome::Reply(Response::basic(400, "Bad Request"))),
                Some(e) => self.scan_from(&e, 0),
            },
            ApiEvent::Busy => ApiAction::Done(ApiOutcome::Dropped),
            ApiEvent::Locked => match req.get_type() {
                ReqTypes::GET => ApiAction::Get(at),
                ReqTypes::POST => ApiAction::Post(at),
                ReqTypes::OPTIONS => ApiAction::Done(
                    ApiOutcome::Reply(handle_options(req).unwrap()),
                ),
            },
            ApiEvent::Answered(Some(r)) => ApiAction::Done(ApiOutcome::Reply(r)),
            ApiEvent::Answered(None) => match effective_path(req.get_endpoint()) {
                None => ApiAction::Done(ApiOutcome::Unanswered),
                Some(e) => if at < self.endpoints.len() {
                    self.scan_from(&e, at + 1)
                } else {
                    assert(first_match(self.prefixes(), e@, at + 1) is None);
                    ApiAction::Done(ApiOutcome::Unanswered)
                },
            },
        }
    }
}

/// Whether an action is one that the dispatch over `n` handlers asks for
/// between two handlers: a lock within the registry, or the end.
spec fn in_reach(action: ActionView, n: int) -> bool {
    match action {
        ActionView::Lock(i) => 0 <= i < n,
        ActionView::Get(_) => false,
        ActionView::Post(_) => false,
        ActionView::Done(_) => true,
    }
}

/// How many handlers of `n` are left at most, once `action` is asked for.
spec fn steps_left(action: ActionView, n: int) -> int {
    match action {
        ActionView::Lock(i) => n - i,
        _ => 0,
    }
}

/// What a dispatch owes whatever the handlers and their locks do: the
/// answer with status 400 for a path without anything after `/api`, no
/// response where no prefix matches, and for `OPTIONS`, where one does, its
/// answer unless the handler is busy.
spec fn owed(prefixes: Seq<Seq<char>>, req: RequestView, action: ActionView) -> bool {
    match effective_endpoint(req.endpoint) {
        None => action == ActionView::Done(
            OutcomeView::Reply(basic_response(400, "Bad Request"@)),
        ),
        Some(e) => match first_match(prefixes, e, 0) {
            None => action == ActionView::Done(OutcomeView::Unanswered),
            Some(_) => req.req_type == ReqTypes::OPTIONS ==> (action is Lock || action
                == ActionView::Done(OutcomeView::Dropped) || action == ActionView::Done(
                OutcomeView::Reply(options_response()),
            )),
        },
    }
}

/// Whether a handler of the kind `H` may give this answer to the request,
/// by the method of the request: to a `GET` as `answers_get` says, to a
/// `POST` as `answers_post` says. `OPTIONS` reaches no handler.
pub open spec fn gave<H: Method>(req: RequestView, answer: Option<ResponseView>) -> bool {
    match req.req_type {
        ReqTypes::GET => exists|h: H| #[trigger] h.answers_get(req, answer),
        ReqTypes::POST => exists|h: H| #[trigger] h.answers_post(req, answer),
        ReqTypes::OPTIONS => false,
    }
}

/// What a dispatch of a `GET` or a `POST` with a matching prefix owes to the
/// handlers: the scan leaves its first handler only after a handler declined,
/// a reply is one that a handler gave, and the request stays unanswered only
/// after a handler declined.
spec fn traced<H: Method>(prefixes: Seq<Seq<char>>, req: RequestView, action: ActionView) -> bool {
    match effective_endpoint(req.endpoint) {
        None => true,
        Some(e) => match first_match(prefixes, e, 0) {
            None => true,
            Some(first) => req.req_type != ReqTypes::OPTIONS ==> match action {
                ActionView::Lock(i) => i == first || gave::<H>(req, None),
                ActionView::Done(OutcomeView::Reply(res)) => gave::<H>(req, Some(res)),
                ActionView::Done(OutcomeView::Unanswered) => gave::<H>(req, None),
                _ => true,
            },
        },
    }
}

/// `tokio::sync::Mutex`: a lock around a value. Nothing is known of what
/// it holds.
#[verifier::external_type_specification]
#[verifier::external_body]
#[verifier::reject_recursive_types(T)]
pub struct ExMutex<T: ?Sized>(tokio::sync::Mutex<T>);

/// `tokio::sync::MutexGuard`: the hold on a lock, which ends with the
/// guard.
#[verifier::external_type_specification]
#[verifier::external_body]
#[verifier::reject_recursive_types(T)]
pub struct ExMutexGuard<'a, T: ?Sized>(tokio::sync::MutexGuard<'a, T>);

/// `tokio::sync::Mutex::try_lock`: the guard of the lock, or `None` where
/// someone else holds it. The call does not wait.
#[verifier::external_body]
fn try_lock<'a, T>(lock: &'a tokio::sync::Mutex<T>) -> (guard: Option<
    tokio::sync::MutexGuard<'a, T>,
>) {
    match lock.try_lock() {
        Ok(guard) => Some(guard),
        Err(_) => None,
    }
}

/// `Deref::deref` of `tokio::sync::MutexGuard`: the value behind the lock
/// that the guard holds.
#[verifier::external_body]
fn held<'a, 'b, T>(guard: &'b tokio::sync::MutexGuard<'a, T>) -> (value: &'b T) {
    core::ops::Deref::deref(guard)
}

/// `DerefMut::deref_mut` of `tokio::sync::MutexGuard`: the value behind the
/// lock that the guard holds, to be changed.
#[verifier::external_body]
fn held_mut<'a, 'b, T>(guard: &'b mut tokio::sync::MutexGuard<'a, T>) -> (value: &'b mut T) {
    core::ops::DerefMut::deref_mut(guard)
}

impl<H: Method> Api<tokio::sync::Mutex<H>> {
    /// Dispatches a request. The handlers whose prefix the path begins with
    /// are tried in their order: the lock of the handler is taken without
    /// waiting, and `handle_get` or `handle_post` is called while it is held,
    /// until one answers. `OPTIONS` is answered as soon as a lock is taken. A
    /// lock that someone else holds ends the dispatch: the request is
    /// dropped.
    ///
    /// Where a prefix matches, a `GET` or a `POST` is answered only with what
    /// a handler gave to it, and stays unanswered only after a handler
    /// declined it.
    pub fn handle_api_request(&self, req: &Request) -> (r: ApiOutcome)
        ensures
            match effective_endpoint(req@.endpoint) {
                None => r@ == OutcomeView::Reply(basic_response(400, "Bad Request"@)),
                Some(e) => match first_match(self.prefixes(), e, 0) {
                    None => r@ == OutcomeView::Unanswered,
                    Some(_) => match req@.req_type {
                        ReqTypes::OPTIONS => r@ is Dropped || r@ == OutcomeView::Reply(
                            options_response(),
                        ),
                        _ => match r@ {
                            OutcomeView::Reply(res) => gave::<H>(req@, Some(res)),
                            OutcomeView::Unanswered => gave::<H>(req@, None),
                            OutcomeView::Dropped => true,
                        },
                    },
                },
            },
    {
        let n = self.endpoints.len();
        let mut action = self.next(req, 0, ApiEvent::Begin);
        proof {
            match effective_endpoint(req@.endpoint) {
                Some(e) => {
                    lemma_first_match(self.prefixes(), e, 0);
                },
                None => {},
            }
        }
        loop
            invariant
                n == self.prefixes().len(),
                in_reach(action@, n as int),
                owed(self.prefixes(), req@, action@),
                traced::<H>(self.prefixes(), req@, action@),
            decreases steps_left(action@, n as int),
        {
            match action {
                ApiAction::Lock(i) => {
                    match try_lock(&self.endpoints[i].1) {
                        None => {
                            action = self.next(req, i, ApiEvent::Busy);
                        },
                        Some(mut guard) => {
                            action = self.next(req, i, ApiEvent::Locked);
                            match action {
                                ApiAction::Get(_) => {
                                    let handler = held(&guard);
                                    let answer = handler.handle_get(req.clone());
                                    assert(handler.answers_get(req@, answer_view(answer)));
                                    assert(gave::<H>(req@, answer_view(answer)));
                                    action = self.next(req, i, ApiEvent::Answered(answer));
                                },
                                ApiAction::Post(_) => {
                                    let handler = held_mut(&mut guard);
                                    let ghost before = *handler;
                                    let answer = handler.handle_post(req.clone());
                                    assert(before.answers_post(req@, answer_view(answer)));
                                    assert(gave::<H>(req@, answer_view(answer)));
                                    action = self.next(req, i, ApiEvent::Answered(answer));
                                },
                                _ => {},
                            }
                            proof {
                                match effective_endpoint(req@.endpoint) {
                                    Some(e) => {
                                        lemma_first_match(self.prefixes(), e, i + 1);
                                    },
                                    None => {},
                                }
                            }
                        },
                    }
                },
                ApiAction::Done(outcome) => {
                    return outcome;
                },
                _ => {
                    return ApiOutcome::Unanswered;
                },
            }
        }
    }
}

/// A handler that is busy ends the dispatch: the request is dropped and gets
/// no response, whatever else is registered.
pub proof fn lemma_busy_is_dropped(prefixes: Seq<Seq<char>>, req: RequestView, at: int)
    ensures
        next_action(prefixes, req, at, EventView::Busy) == ActionView::Done(OutcomeView::Dropped),
{
}

/// A request whose path begins with no registered prefix reaches no handler:
/// no lock is asked for, and the request stays unanswered.
pub proof fn lemma_unmatched_is_unanswered(prefixes: Seq<Seq<char>>, req: RequestView)
    requires
        effective_endpoint(req.endpoint) is Some,
        forall|i: int|
            0 <= i < prefixes.len() ==> !starts_with(
                effective_endpoint(req.endpoint)->Some_0,
                #[trigger] prefixes[i],
            ),
    ensures
        next_action(prefixes, req, 0, EventView::Begin) == ActionView::Done(
            OutcomeView::Unanswered,
        ),
{
    lemma_first_match(prefixes, effective_endpoint(req.endpoint)->Some_0, 0);
}

/// A request goes to the first handler whose prefix its path begins with:
/// that handler's lock is asked for first, and once it is taken a `GET` calls
/// its `handle_get`, a `POST` its `handle_post`, and `OPTIONS` is answered
/// without a call.
pub proof fn lemma_first_matching_handler(prefixes: Seq<Seq<char>>, req: RequestView, i: int)
    requires
        effective_endpoint(req.endpoint) is Some,
        0 <= i < prefixes.len(),
        starts_with(effective_endpoint(req.endpoint)->Some_0, prefixes[i]),
        forall|j: int|
            0 <= j < i ==> !starts_with(
                effective_endpoint(req.endpoint)->Some_0,
                #[trigger] prefixes[j],
            ),
    ensures
        next_action(prefixes, req, 0, EventView::Begin) == ActionView::Lock(i),
        next_action(prefixes, req, i, EventView::Locked) == match req.req_type {
            ReqTypes::GET => ActionView::Get(i),
            ReqTypes::POST => ActionView::Post(i),
            ReqTypes::OPTIONS => ActionView::Done(OutcomeView::Reply(options_response())),
        },
{
    lemma_first_match(prefixes, effective_endpoint(req.endpoint)->Some_0, 0);
}

/// A handler that declines does not end the dispatch: the scan goes on
/// behind it, to the next handler whose prefix matches.
pub proof fn lemma_declined_scans_on(prefixes: Seq<Seq<char>>, req: RequestView, at: int, i: int)
    requires
        effective_endpoint(req.endpoint) is Some,
        0 <= at < i < prefixes.len(),
        starts_with(effective_endpoint(req.endpoint)->Some_0, prefixes[i]),
        forall|j: int|
            at < j < i ==> !starts_with(
                effective_endpoint(req.endpoint)->Some_0,
                #[trigger] prefixes[j],
            ),
    ensures
        next_action(prefixes, req, at, EventView::Answered(None)) == ActionView::Lock(i),
{
    lemma_first_match(prefixes, effective_endpoint(req.endpoint)->Some_0, at + 1);
}

} // verus!
