//! Credentials: the process-lifetime admin token and the set of live
//! one-time passwords, together with the two authorization gate decisions.

use vstd::prelude::*;

verus! {

#[verifier::external_type_specification]
#[verifier::external_body]
#[verifier::reject_recursive_types(K)]
#[verifier::reject_recursive_types(S)]
pub struct ExDashSet<K, S>(dashmap::DashSet<K, S>);

#[verifier::external_type_specification]
#[verifier::external_body]
#[verifier::reject_recursive_types(T)]
pub struct ExIntern<T: 'static + ?Sized>(internment::Intern<T>);

/// The strings held by a concurrent set of one-time passwords.
pub uninterp spec fn otp_set_contents(s: dashmap::DashSet<String>) -> Set<Seq<char>>;

/// The string stored behind an interned handle.
pub uninterp spec fn intern_value(i: internment::Intern<String>) -> Seq<char>;

/// Relies on dashmap::DashSet::new: creates an empty set.
#[verifier::external_body]
fn otp_set_new() -> (s: dashmap::DashSet<String>)
    ensures
        otp_set_contents(s) == Set::<Seq<char>>::empty(),
{
    dashmap::DashSet::new()
}

/// Relies on dashmap::DashSet::insert: adds the value to the set and
/// returns whether it was not already present.
#[verifier::external_body]
fn otp_set_insert(s: &mut dashmap::DashSet<String>, v: String) -> (r: bool)
    ensures
        otp_set_contents(*final(s)) == otp_set_contents(*old(s)).insert(v@),
        r == !otp_set_contents(*old(s)).contains(v@),
{
    s.insert(v)
}

/// Relies on dashmap::DashSet::remove: takes the value out of the set in one
/// atomic check-and-remove step and says whether it was present.
#[verifier::external_body]
fn otp_set_remove(s: &mut dashmap::DashSet<String>, v: &str) -> (r: bool)
    ensures
        otp_set_contents(*final(s)) == otp_set_contents(*old(s)).remove(v@),
        r == otp_set_contents(*old(s)).contains(v@),
{
    s.remove(v).is_some()
}

/// Relies on internment::Intern::new: interns the value and hands back a
/// handle to an equal value.
#[verifier::external_body]
fn intern_new(s: String) -> (i: internment::Intern<String>)
    ensures
        intern_value(i) == s@,
{
    internment::Intern::new(s)
}

/// Relies on internment::Intern::as_ref: the handle points at the interned value.
#[verifier::external_body]
fn intern_str(i: &internment::Intern<String>) -> (r: &str)
    ensures
        r@ == intern_value(*i),
{
    i.as_ref().as_str()
}

/// Relies on chbs's passphrase scheme: draws a fresh random passphrase of
/// five words from the short built-in word list; nothing is promised of the
/// drawn value.
#[verifier::external_body]
pub fn random_pass() -> String {
    let config: chbs::config::BasicConfig<chbs::word::WordSampler> =
        chbs::config::BasicConfigBuilder::default()
            .word_provider(chbs::word::WordList::builtin_eff_short().sampler())
            .capitalize_words(chbs::probability::Probability::Never)
            .capitalize_first(chbs::probability::Probability::Never)
            .separator("-")
            .words(5usize)
            .build()
            .unwrap();
    let scheme = chbs::scheme::ToScheme::to_scheme(&config);
    scheme.generate()
}

/// The single long-lived admin credential, interned at startup.
pub struct Token(internment::Intern<String>);

impl View for Token {
    type V = Seq<char>;

    closed spec fn view(&self) -> Seq<char> {
        intern_value(self.0)
    }
}

impl Token {
    /// A fresh randomly drawn admin token.
    pub fn generate() -> Token {
        Token(intern_new(random_pass()))
    }

    /// A token with a caller-chosen value.
    pub fn from_string(s: String) -> (r: Token)
        ensures
            r@ == s@,
    {
        Token(intern_new(s))
    }

    pub fn as_str(&self) -> (r: &str)
        ensures
            r@ == self@,
    {
        intern_str(&self.0)
    }

    /// Does a caller-supplied credential equal this token?
    pub fn matches(&self, given: &String) -> (r: bool)
        ensures
            r == (given@ == self@),
    {
        let s = intern_str(&self.0);
        let owned: String = s.to_owned();
        owned == *given
    }
}

/// The set of live one-time passwords; each is valid for exactly one
/// successful verification.
pub struct OTP {
    otps: dashmap::DashSet<String>,
}

impl View for OTP {
    type V = Set<Seq<char>>;

    closed spec fn view(&self) -> Set<Seq<char>> {
        otp_set_contents(self.otps)
    }
}

impl Default for OTP {
    /// An empty store: no one-time password is live.
    fn default() -> (r: Self)
        ensures
            r@ == Set::<Seq<char>>::empty(),
    {
        OTP { otps: otp_set_new() }
    }
}

impl OTP {
    /// Draw a fresh one-time password and add it to the live set.
    pub fn generate_new(&mut self) -> (r: String)
        ensures
            final(self)@ == old(self)@.insert(r@),
    {
        let pass = random_pass();
        let copy = pass.clone();
        otp_set_insert(&mut self.otps, copy);
        pass
    }

    /// Atomic check-and-remove: succeeds exactly when the password is live,
    /// and in that case consumes it.
    pub fn verify(&mut self, pass: &str) -> (r: bool)
        ensures
            r == old(self)@.contains(pass@),
            final(self)@ == old(self)@.remove(pass@),
    {
        otp_set_remove(&mut self.otps, pass)
    }
}

/// A generated one-time password verifies exactly once: right after it is
/// added to the live set it is there, so the first verification succeeds and
/// consumes it; against the state that leaves behind the same password is
/// gone, so every later verification of it fails, whatever else the set held.
pub proof fn lemma_otp_single_use(live: Set<Seq<char>>, pass: Seq<char>)
    ensures
        live.insert(pass).contains(pass),
        !live.insert(pass).remove(pass).contains(pass),
        live.insert(pass).remove(pass).remove(pass) == live.insert(pass).remove(pass),
{
    assert(live.insert(pass).remove(pass).remove(pass) =~= live.insert(pass).remove(pass));
}

/// A caller-supplied credential string, as it came out of the command text.
#[derive(Debug, Clone)]
pub struct Given(pub String);

impl View for Given {
    type V = Seq<char>;

    open spec fn view(&self) -> Seq<char> {
        self.0@
    }
}

/// The decision of the admin-token gate: admit, or halt with a fixed reply.
pub enum GateDecision {
    Admit,
    Halt { reply: String },
}

impl GateDecision {
    pub open spec fn is_admit(&self) -> bool {
        matches!(self, GateDecision::Admit)
    }

    pub open spec fn halt_reply(&self) -> Seq<char> {
        match self {
            GateDecision::Admit => Seq::empty(),
            GateDecision::Halt { reply } => reply@,
        }
    }
}

/// The token gate: admits exactly when the supplied credential equals the
/// admin token; otherwise it halts the chain with the fixed rejection reply.
pub fn token_auth(token: &Token, given: &Given) -> (d: GateDecision)
    ensures
        d.is_admit() == (given@ == token@),
        !d.is_admit() ==> d.halt_reply() == "Invalid token"@,
{
    if token.matches(&given.0) {
        GateDecision::Admit
    } else {
        GateDecision::Halt { reply: "Invalid token".to_owned() }
    }
}

/// The one-time-password gate: admits exactly when the supplied credential is
/// a live password, and then consumes it — a later failure of the gated
/// handler never revives it; otherwise it halts the chain with the fixed
/// rejection reply.
pub fn otp_auth(otps: &mut OTP, given: &Given) -> (d: GateDecision)
    ensures
        d.is_admit() == old(otps)@.contains(given@),
        final(otps)@ == old(otps)@.remove(given@),
        !d.is_admit() ==> d.halt_reply() == "Invalid one-time password"@,
{
    if otps.verify(given.0.as_str()) {
        GateDecision::Admit
    } else {
        GateDecision::Halt { reply: "Invalid one-time password".to_owned() }
    }
}

} // verus!
