//! The progress of logins: what a login reports at each outcome, and the
//! registry of logins that the status polls read.
use vstd::prelude::*;
use crate::oauth::{OAuthCallback, CallbackView, cancelled_text, message_with};
use crate::events::{opt_view, copy_opt_string};
use crate::text::{is_blank, str_is_blank, str_eq};

verus! {

broadcast use vstd::std_specs::vec::group_vec_axioms;

/// How far a login has come: whether it is over, whether it succeeded, the
/// account's e-mail and the error that ended it.
pub struct LoginProgress {
    pub done: bool,
    pub success: bool,
    pub email: Option<String>,
    pub error: Option<String>,
}

/// The model of a [`LoginProgress`].
pub struct ProgressView {
    pub done: bool,
    pub success: bool,
    pub email: Option<Seq<char>>,
    pub error: Option<Seq<char>>,
}

impl View for LoginProgress {
    type V = ProgressView;

    open spec fn view(&self) -> ProgressView {
        ProgressView {
            done: self.done,
            success: self.success,
            email: opt_view(self.email),
            error: opt_view(self.error),
        }
    }
}

impl ProgressView {
    /// A consistent progress: a pending login has nothing to report; a
    /// finished one either succeeded without an error or failed with one and
    /// no e-mail.
    pub open spec fn wf(self) -> bool {
        &&& !self.done ==> !self.success && self.email is None && self.error is None
        &&& self.done && self.success ==> self.error is None
        &&& self.done && !self.success ==> self.error is Some && self.email is None
    }
}

/// The progress of a login that has not finished (and of an unknown one).
pub open spec fn pending() -> ProgressView {
    ProgressView { done: false, success: false, email: None, error: None }
}

/// The progress of a login that failed with `error`.
pub open spec fn failed(error: Seq<char>) -> ProgressView {
    ProgressView { done: true, success: false, email: None, error: Some(error) }
}

/// The progress of a login that succeeded for the account `email`.
pub open spec fn succeeded(email: Option<Seq<char>>) -> ProgressView {
    ProgressView { done: true, success: true, email, error: None }
}

impl LoginProgress {
    /// A pending login.
    pub fn pending() -> (r: LoginProgress)
        ensures
            r@ == pending(),
    {
        LoginProgress { done: false, success: false, email: None, error: None }
    }

    /// A login that failed with `error`.
    pub fn failed(error: String) -> (r: LoginProgress)
        ensures
            r@ == failed(error@),
    {
        LoginProgress { done: true, success: false, email: None, error: Some(error) }
    }

    /// A copy.
    pub fn copy(&self) -> (r: LoginProgress)
        ensures
            r@ == self@,
    {
        LoginProgress {
            done: self.done,
            success: self.success,
            email: copy_opt_string(&self.email),
            error: copy_opt_string(&self.error),
        }
    }
}

/// What to do once the callback has come: finish the login with a progress,
/// or exchange the code for tokens.
pub enum CallbackDecision {
    Finish(LoginProgress),
    Exchange(String),
}

/// The decision on a callback outcome, by its model.
pub enum DecisionView {
    Finish(ProgressView),
    Exchange(Seq<char>),
}

/// A decision by its model.
pub open spec fn decision_view(d: CallbackDecision) -> DecisionView {
    match d {
        CallbackDecision::Finish(p) => DecisionView::Finish(p@),
        CallbackDecision::Exchange(c) => DecisionView::Exchange(c@),
    }
}

/// The decision on a callback: a failure stays a failure; a reported error or
/// a state other than the expected one fails the login; otherwise the code is
/// exchanged.
pub open spec fn decide_callback(outcome: Result<CallbackView, Seq<char>>, expected: Seq<char>) -> DecisionView {
    match outcome {
        Err(e) => DecisionView::Finish(failed(e)),
        Ok(cb) => if !is_blank(cb.error) {
            DecisionView::Finish(failed("Codex authentication failed: "@ + cb.error))
        } else if cb.state != expected {
            DecisionView::Finish(failed("Codex authentication failed: state mismatch."@))
        } else {
            DecisionView::Exchange(cb.code)
        },
    }
}

/// Decides what follows the callback of the login started with state
/// `expected_state`.
pub fn decide_after_callback(callback: Result<OAuthCallback, String>, expected_state: &str) -> (r:
    CallbackDecision)
    ensures
        decision_view(r) == decide_callback(
            match callback {
                Ok(cb) => Ok(cb@),
                Err(e) => Err(e@),
            },
            expected_state@,
        ),
        match decision_view(r) {
            DecisionView::Finish(p) => p.wf() && p.done,
            _ => true,
        },
{
    match callback {
        Err(e) => CallbackDecision::Finish(LoginProgress::failed(e)),
        Ok(cb) => {
            if !str_is_blank(cb.error.as_str()) {
                CallbackDecision::Finish(
                    LoginProgress::failed(
                        message_with("Codex authentication failed: ", cb.error.as_str()),
                    ),
                )
            } else if !str_eq(cb.state.as_str(), expected_state) {
                CallbackDecision::Finish(
                    LoginProgress::failed("Codex authentication failed: state mismatch.".to_owned()),
                )
            } else {
                CallbackDecision::Exchange(cb.code)
            }
        },
    }
}

/// The progress once the tokens were obtained (the account's e-mail given)
/// and an attempt to save them was made.
pub open spec fn after_save(email: Option<Seq<char>>, saved: Result<(), Seq<char>>) -> ProgressView {
    match saved {
        Ok(_) => succeeded(email),
        Err(e) => failed(e),
    }
}

/// The progress after saving the tokens of a successful exchange.
pub fn progress_after_save(email: Option<String>, saved: Result<(), String>) -> (r: LoginProgress)
    ensures
        r@ == after_save(
            opt_view(email),
            match saved {
                Ok(_) => Ok(()),
                Err(e) => Err(e@),
            },
        ),
        r@.wf(),
{
    match saved {
        Ok(_) => LoginProgress { done: true, success: true, email, error: None },
        Err(e) => LoginProgress::failed(e),
    }
}

/// The message when the HTTP client for the login could not be made.
pub fn http_client_error(error: &str) -> (r: String)
    ensures
        r@ == "Failed to create HTTP client: "@ + error@,
{
    message_with("Failed to create HTTP client: ", error)
}

/// The logins by state, and the state of the login in progress, as the
/// registry models them (the handle that cancels that login is
/// `LoginRegistry::handle`).
pub struct RegistryView {
    pub logins: Map<Seq<char>, ProgressView>,
    pub active: Option<Seq<char>>,
}

/// The map that a list of recordings builds, later ones replacing earlier.
pub open spec fn recorded(s: Seq<(Seq<char>, ProgressView)>) -> Map<Seq<char>, ProgressView>
    decreases s.len(),
{
    if s.len() == 0 {
        Map::empty()
    } else {
        recorded(s.drop_last()).insert(s.last().0, s.last().1)
    }
}

/// What a status poll answers for a state: its recorded progress, else pending.
pub open spec fn status_of(v: RegistryView, state: Seq<char>) -> ProgressView {
    if v.logins.dom().contains(state) {
        v.logins[state]
    } else {
        pending()
    }
}

/// The registry after a login with `state` began: it is recorded as pending
/// and becomes the login in progress.
pub open spec fn began(v: RegistryView, state: Seq<char>) -> RegistryView {
    RegistryView { logins: v.logins.insert(state, pending()), active: Some(state) }
}

/// The registry after the login with `state` finished with `p`: it is
/// recorded, and it stops being the login in progress if it was.
pub open spec fn completed(v: RegistryView, state: Seq<char>, p: ProgressView) -> RegistryView {
    RegistryView {
        logins: v.logins.insert(state, p),
        active: if v.active == Some(state) {
            None
        } else {
            v.active
        },
    }
}

/// The registry after progress for `state` was recorded on its own.
pub open spec fn reported(v: RegistryView, state: Seq<char>, p: ProgressView) -> RegistryView {
    RegistryView { logins: v.logins.insert(state, p), active: v.active }
}

/// The registry after a cancel: the login in progress, if any, is recorded as
/// cancelled, and none is in progress.
pub open spec fn cancelled(v: RegistryView) -> RegistryView {
    match v.active {
        Some(s) => RegistryView { logins: v.logins.insert(s, failed(cancelled_text())), active: None },
        None => v,
    }
}

/// The registry with no login in progress (the handle of the one that was
/// is handed back to be signalled).
pub open spec fn detached(v: RegistryView) -> RegistryView {
    RegistryView { logins: v.logins, active: None }
}

/// The logins of the app: the progress recorded for each state, and the login
/// in progress with the handle `C` that cancels it.
pub struct LoginRegistry<C> {
    entries: Vec<(String, LoginProgress)>,
    active: Option<(String, C)>,
}

impl<C> LoginRegistry<C> {
    spec fn entry_models(&self) -> Seq<(Seq<char>, ProgressView)> {
        self.entries@.map_values(|e: (String, LoginProgress)| (e.0@, e.1@))
    }

    /// The registry's model.
    pub closed spec fn view(&self) -> RegistryView {
        RegistryView {
            logins: recorded(self.entry_models()),
            active: match self.active {
                Some(a) => Some(a.0@),
                None => None,
            },
        }
    }

    /// The handle that cancels the login in progress, if any: the one given
    /// to the `begin` that started it.
    pub closed spec fn handle(&self) -> Option<C> {
        match self.active {
            Some(a) => Some(a.1),
            None => None,
        }
    }

    /// An empty registry.
    pub fn new() -> (r: Self)
        ensures
            r.view().logins == Map::<Seq<char>, ProgressView>::empty(),
            r.view().active is None,
            r.handle() is None,
    {
        let r = LoginRegistry { entries: Vec::new(), active: None };
        assert(r.entry_models() =~= Seq::<(Seq<char>, ProgressView)>::empty());
        r
    }

    /// Records `p` for `state`: in place of the entry for `state` if there is
    /// one, else as a new entry.
    fn record(&mut self, state: String, p: LoginProgress)
        ensures
            final(self).view().logins == old(self).view().logins.insert(state@, p@),
            final(self).view().active == old(self).view().active,
            final(self).handle() == old(self).handle(),
    {
        let ghost prev = self.entry_models();
        let ghost item = (state@, p@);
        let mut i: usize = self.entries.len();
        while i > 0
            invariant
                prev == self.entry_models(),
                item == (state@, p@),
                self.entries@ == old(self).entries@,
                self.active == old(self).active,
                i <= self.entries@.len(),
                forall|j: int| i <= j < self.entries@.len() ==> prev[j].0 != state@,
            decreases i,
        {
            i = i - 1;
            if str_eq(self.entries[i].0.as_str(), state.as_str()) {
                self.entries.set(i, (state, p));
                proof {
                    assert(self.entry_models() =~= prev.update(i as int, item));
                    lemma_recorded_update(prev, i as int, item.1);
                }
                return;
            }
        }
        self.entries.push((state, p));
        assert(self.entry_models() =~= prev.push(item));
        assert(self.entry_models().drop_last() =~= prev);
    }

    /// Ends the login in progress without recording anything, and hands back
    /// its cancel handle.
    pub fn take_active(&mut self) -> (r: Option<C>)
        ensures
            final(self).view() == detached(old(self).view()),
            r == old(self).handle(),
            final(self).handle() is None,
    {
        match self.active.take() {
            Some((_, cancel)) => Some(cancel),
            None => None,
        }
    }

    /// Starts tracking the login with `state`, cancelled through `cancel`.
    pub fn begin(&mut self, state: String, cancel: C)
        ensures
            final(self).view() == began(old(self).view(), state@),
    {
        let key = state.clone();
        self.record(state, LoginProgress::pending());
        self.active = Some((key, cancel));
    }

    /// Records progress for the login with `state` without changing which
    /// login is in progress.
    pub fn report(&mut self, state: &str, progress: LoginProgress)
        ensures
            final(self).view() == reported(old(self).view(), state@, progress@),
    {
        self.record(state.to_owned(), progress);
    }

    /// Records how the login with `state` finished.
    pub fn complete(&mut self, state: &str, progress: LoginProgress)
        ensures
            final(self).view() == completed(old(self).view(), state@, progress@),
    {
        let is_active = match &self.active {
            Some(a) => str_eq(a.0.as_str(), state),
            None => false,
        };
        self.record(state.to_owned(), progress);
        if is_active {
            self.active = None;
        }
    }

    /// Cancels the login in progress, if any: it is recorded as cancelled, and
    /// its cancel handle is handed back to be signalled.
    pub fn cancel(&mut self) -> (r: Option<C>)
        ensures
            final(self).view() == cancelled(old(self).view()),
            r == old(self).handle(),
            final(self).handle() is None,
    {
        match self.active.take() {
            Some((state, handle)) => {
                let p = LoginProgress::failed(crate::oauth::login_cancelled_message());
                self.record(state, p);
                Some(handle)
            },
            None => None,
        }
    }

    /// The progress of the login with `state`.
    pub fn status(&self, state: &str) -> (r: LoginProgress)
        ensures
            r@ == status_of(self.view(), state@),
    {
        let ghost ms = self.entry_models();
        let mut i: usize = self.entries.len();
        while i > 0
            invariant
                ms == self.entry_models(),
                i <= self.entries@.len(),
                forall|j: int| i <= j < self.entries@.len() ==> ms[j].0 != state@,
            decreases i,
        {
            i = i - 1;
            if str_eq(self.entries[i].0.as_str(), state) {
                proof {
                    lemma_recorded_last(ms, i as int);
                }
                return self.entries[i].1.copy();
            }
        }
        proof {
            lemma_recorded_dom(ms, state@);
        }
        LoginProgress::pending()
    }
}

proof fn lemma_recorded_dom(s: Seq<(Seq<char>, ProgressView)>, k: Seq<char>)
    ensures
        recorded(s).dom().contains(k) <==> exists|i: int| 0 <= i < s.len() && s[i].0 == k,
    decreases s.len(),
{
    if s.len() > 0 {
        lemma_recorded_dom(s.drop_last(), k);
        if exists|i: int| 0 <= i < s.len() && s[i].0 == k {
            let i = choose|i: int| 0 <= i < s.len() && s[i].0 == k;
            if i < s.len() - 1 {
                assert(s.drop_last()[i].0 == k);
            }
        }
        if exists|i: int| 0 <= i < s.drop_last().len() && s.drop_last()[i].0 == k {
            let i = choose|i: int| 0 <= i < s.drop_last().len() && s.drop_last()[i].0 == k;
            assert(s[i].0 == k);
        }
    }
}

proof fn lemma_recorded_update(s: Seq<(Seq<char>, ProgressView)>, i: int, v: ProgressView)
    requires
        0 <= i < s.len(),
        forall|j: int| i < j < s.len() ==> s[j].0 != s[i].0,
    ensures
        recorded(s.update(i, (s[i].0, v))) == recorded(s).insert(s[i].0, v),
    decreases s.len(),
{
    let k = s[i].0;
    let u = s.update(i, (k, v));
    if i == s.len() - 1 {
        assert(u.drop_last() =~= s.drop_last());
        assert(recorded(u) =~= recorded(s).insert(k, v));
    } else {
        assert(u.drop_last() =~= s.drop_last().update(i, (k, v)));
        assert(s.drop_last()[i] == s[i]);
        assert(s.last().0 != k);
        lemma_recorded_update(s.drop_last(), i, v);
        assert(recorded(u) =~= recorded(s).insert(k, v));
    }
}

proof fn lemma_recorded_last(s: Seq<(Seq<char>, ProgressView)>, j: int)
    requires
        0 <= j < s.len(),
        forall|i: int| j < i < s.len() ==> s[i].0 != s[j].0,
    ensures
        recorded(s).dom().contains(s[j].0),
        recorded(s)[s[j].0] == s[j].1,
    decreases s.len(),
{
    if j < s.len() - 1 {
        assert(s.last().0 != s[j].0);
        assert(s.drop_last()[j] == s[j]);
        lemma_recorded_last(s.drop_last(), j);
    }
}

} // verus!

verus! {

/// A status poll after a login finished answers what it finished with.
pub proof fn law_status_reads_completion(v: RegistryView, state: Seq<char>, p: ProgressView)
    ensures
        status_of(completed(v, state, p), state) == p,
{
}

/// Recording one login leaves the answers for every other state as they were.
pub proof fn law_completion_leaves_others(
    v: RegistryView,
    state: Seq<char>,
    other: Seq<char>,
    p: ProgressView,
)
    requires
        other != state,
    ensures
        status_of(completed(v, state, p), other) == status_of(v, other),
{
}

/// Finishing the login in progress ends it; finishing another login leaves
/// the one in progress as it is.
pub proof fn law_completion_ends_active(v: RegistryView, state: Seq<char>, p: ProgressView)
    ensures
        v.active == Some(state) ==> completed(v, state, p).active is None,
        v.active != Some(state) ==> completed(v, state, p).active == v.active,
{
}

/// A login that just began is pending and is the login in progress.
pub proof fn law_begin_is_pending(v: RegistryView, state: Seq<char>)
    ensures
        status_of(began(v, state), state) == pending(),
        began(v, state).active == Some(state),
{
}

/// Cancelling records the login in progress as cancelled and leaves none in
/// progress; with no login in progress, it changes nothing.
pub proof fn law_cancel(v: RegistryView)
    ensures
        v.active matches Some(s) ==> status_of(cancelled(v), s) == failed(cancelled_text())
            && cancelled(v).active is None,
        v.active is None ==> cancelled(v) == v,
{
}

/// Reporting progress on its own leaves the login in progress as it is, and
/// is what the next poll of that state answers.
pub proof fn law_report_keeps_active(v: RegistryView, state: Seq<char>, p: ProgressView)
    ensures
        reported(v, state, p).active == v.active,
        status_of(reported(v, state, p), state) == p,
{
}

/// A state that no login ever used is reported as pending.
pub proof fn law_unknown_state_is_pending(v: RegistryView, state: Seq<char>)
    requires
        !v.logins.dom().contains(state),
    ensures
        status_of(v, state) == pending(),
{
}

/// Every progress the login reports is consistent: pending ones report
/// nothing, successful ones no error, failed ones an error and no e-mail.
pub proof fn law_progress_consistent(e: Seq<char>, email: Option<Seq<char>>)
    ensures
        pending().wf(),
        failed(e).wf(),
        succeeded(email).wf(),
{
}

/// A callback leads to a code exchange only when it was received, reports
/// no error and carries the state the login was started with, and then the
/// code exchanged is the callback's own. A callback with another state fails
/// the login as a state mismatch.
pub proof fn law_code_exchanged_only_for_matching_state(
    outcome: Result<CallbackView, Seq<char>>,
    expected: Seq<char>,
    code: Seq<char>,
)
    ensures
        decide_callback(outcome, expected) == DecisionView::Exchange(code) <==> (outcome is Ok
            && is_blank(outcome->Ok_0.error) && outcome->Ok_0.state == expected
            && outcome->Ok_0.code == code),
        outcome is Ok && is_blank(outcome->Ok_0.error) && outcome->Ok_0.state != expected
            ==> decide_callback(outcome, expected) == DecisionView::Finish(
            failed("Codex authentication failed: state mismatch."@),
        ),
        decide_callback(outcome, expected) matches DecisionView::Finish(p) ==> p.done
            && !p.success,
{
}

} // verus!
