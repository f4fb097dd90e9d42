//! Which model provider is called, and with what.
use crate::outside::{debug_of, debug_text};
use crate::text::{
    chars_of, has_prefix, parse_u64, parsed_u64, same_text, starts_with, strip_prefix,
    text_of,
};
use vstd::prelude::*;

verus! {

/// How long a provider may take where nothing else is set, in seconds.
pub const DEFAULT_PROVIDER_TIMEOUT_SECS: u64 = 300;

/// A provider that can be called.
#[derive(Clone)]
pub struct Activation {
    pub api_key: String,
    pub model: String,
    pub base_url: String,
    pub timeout_secs: u64,
}

#[verifier::ext_equal]
pub struct ActivationView {
    pub api_key: Seq<char>,
    pub model: Seq<char>,
    pub base_url: Seq<char>,
    pub timeout_secs: nat,
}

impl View for Activation {
    type V = ActivationView;

    open spec fn view(&self) -> ActivationView {
        ActivationView {
            api_key: self.api_key@,
            model: self.model@,
            base_url: self.base_url@,
            timeout_secs: self.timeout_secs as nat,
        }
    }
}

/// What of a key may be shown: its last four characters, and those only where
/// there are more than four.
pub open spec fn redacted(key: Seq<char>) -> Seq<char> {
    if key.len() <= 4 {
        "****"@
    } else {
        "****"@ + key.skip(key.len() - 4)
    }
}

/// How a provider is shown: its key redacted, its timeout left out.
pub open spec fn shown_activation(key: Seq<char>, model: Seq<char>, base: Seq<char>) -> Seq<char> {
    "Activation { api_key: "@
        + key
        + ", model: "@
        + model
        + ", base_url: "@
        + base
        + " }"@
}

impl Activation {
    /// What of the key may be shown.
    pub fn redacted_key(&self) -> (out: String)
        ensures
            out@ == redacted(self.api_key@),
    {
        let chars: Vec<char> = chars_of(self.api_key.as_str());
        let mut out: String = "****".to_owned();
        if chars.len() > 4 {
            let n: usize = chars.len();
            let tail: String = text_of(&chars, n - 4, n);
            assert(tail@ =~= self.api_key@.skip(self.api_key@.len() - 4));
            out.append(tail.as_str());
        }
        out
    }

    /// The provider as a log may show it.
    pub fn shown(&self) -> (out: String)
        ensures
            out@ == shown_activation(
                debug_text(redacted(self.api_key@)),
                debug_text(self.model@),
                debug_text(self.base_url@),
            ),
    {
        let mut out: String = "Activation { api_key: ".to_owned();
        out.append(debug_of(self.redacted_key().as_str()).as_str());
        out.append(", model: ");
        out.append(debug_of(self.model.as_str()).as_str());
        out.append(", base_url: ");
        out.append(debug_of(self.base_url.as_str()).as_str());
        out.append(" }");
        out
    }
}

/// A shown provider says the same of any two keys that end alike: what stands
/// before the last four characters of a key never reaches a log.
pub proof fn law_only_the_tail_of_a_key_is_shown(a: Seq<char>, b: Seq<char>)
    requires
        a.len() > 4,
        b.len() > 4,
        a.skip(a.len() - 4) == b.skip(b.len() - 4),
    ensures
        redacted(a) == redacted(b),
{
}

/// The settings of the environment that name a provider.
#[derive(Clone)]
pub struct ProviderEnv {
    /// `NIRDOSHA_LLM_PROVIDER_TIMEOUT_SECS`.
    pub timeout_secs: Option<String>,
    /// `NIRDOSHA_LLM_PROVIDER_KEY`.
    pub key: Option<String>,
    /// `NIRDOSHA_LLM_PROVIDER_MODEL`.
    pub model: Option<String>,
    /// `NIRDOSHA_LLM_PROVIDER_BASE`.
    pub base_url: Option<String>,
    /// `OPENAI_API_KEY`.
    pub openai_key: Option<String>,
}

pub open spec fn not_a_timeout(raw: Seq<char>) -> Seq<char> {
    "NIRDOSHA_LLM_PROVIDER_TIMEOUT_SECS is set to `"@ + raw + "`, which isn't a whole number of seconds"@
}

fn say_not_a_timeout(raw: &str) -> (out: String)
    ensures
        out@ == not_a_timeout(raw@),
{
    let mut out: String = "NIRDOSHA_LLM_PROVIDER_TIMEOUT_SECS is set to `".to_owned();
    out.append(raw);
    out.append("`, which isn't a whole number of seconds");
    out
}

pub open spec fn zero_timeout() -> Seq<char> {
    "NIRDOSHA_LLM_PROVIDER_TIMEOUT_SECS is set to `0` -- a zero-second timeout would fail \
    every request instantly; unset it for the default (300s) or set a real positive number"@
}

fn say_zero_timeout() -> (out: String)
    ensures
        out@ == zero_timeout(),
{
    "NIRDOSHA_LLM_PROVIDER_TIMEOUT_SECS is set to `0` -- a zero-second timeout would \
        fail every request instantly; unset it for the default (300s) or set a real \
        positive number".to_owned()
}

/// How long a provider may take, in seconds, or why the setting is no such
/// number.
pub open spec fn timeout_of(raw: Option<Seq<char>>) -> Result<nat, Seq<char>> {
    match raw {
        None => Ok(300),
        Some(raw) => match parsed_u64(raw) {
            None => Err(not_a_timeout(raw)),
            Some(n) => if n == 0 {
                Err(zero_timeout())
            } else {
                Ok(n)
            },
        },
    }
}

fn read_timeout(raw: &Option<String>) -> (out: Result<u64, String>)
    ensures
        match out {
            Ok(n) => timeout_of(crate::composer::decl::opt_text(*raw)) == Ok::<nat, Seq<char>>(
                n as nat,
            ),
            Err(e) => timeout_of(crate::composer::decl::opt_text(*raw)) == Err::<nat, Seq<char>>(e@),
        },
{
    match raw {
        None => Ok(DEFAULT_PROVIDER_TIMEOUT_SECS),
        Some(raw) => match parse_u64(raw.as_str()) {
            None => Err(say_not_a_timeout(raw.as_str())),
            Some(n) => if n == 0 {
                Err(say_zero_timeout())
            } else {
                Ok(n)
            },
        },
    }
}

/// Where the host of an address ends: at its first `/` or `:`.
pub open spec fn host_end(s: Seq<char>, from: nat) -> nat
    decreases s.len() - from,
{
    if from >= s.len() || s[from as int] == '/' || s[from as int] == ':' {
        from
    } else {
        host_end(s, from + 1)
    }
}

/// The part of an address without its scheme that stands for a host, in
/// brackets or not, is one of this machine: a request to it never leaves it.
pub open spec fn is_local(rest: Seq<char>) -> bool {
    let host = rest.take(host_end(rest, 0) as int);
    ||| host == "localhost"@
    ||| host == "127.0.0.1"@
    ||| starts_with(rest, "[::1]"@) && host_end(rest, "[::1]"@.len()) == "[::1]"@.len()
}

pub open spec fn cleartext_base(base: Seq<char>) -> Seq<char> {
    "NIRDOSHA_LLM_PROVIDER_BASE is `"@ + base + "` -- a plain http:// base would send the bearer API key in cleartext; use https://, or \
    http://localhost (and equivalents) for a local gateway"@
}

fn say_cleartext_base(base: &str) -> (out: String)
    ensures
        out@ == cleartext_base(base@),
{
    let mut out: String = "NIRDOSHA_LLM_PROVIDER_BASE is `".to_owned();
    out.append(base);
    out.append("` -- a plain http:// base would send the bearer API key in cleartext; use https://, \
        or http://localhost (and equivalents) for a local gateway");
    out
}

pub open spec fn unknown_base(base: Seq<char>) -> Seq<char> {
    "NIRDOSHA_LLM_PROVIDER_BASE is `"@ + base + "` -- must start with https:// (or http://localhost for a local gateway)"@
}

fn say_unknown_base(base: &str) -> (out: String)
    ensures
        out@ == unknown_base(base@),
{
    let mut out: String = "NIRDOSHA_LLM_PROVIDER_BASE is `".to_owned();
    out.append(base);
    out.append("` -- must start with https:// (or http://localhost for a local gateway)");
    out
}

/// Why a key may not be sent to an address; `None` where it may: the address
/// is encrypted, or on this machine.
pub open spec fn insecure(base: Seq<char>) -> Option<Seq<char>> {
    if starts_with(base, "https://"@) {
        None
    } else if starts_with(base, "http://"@) {
        let rest = base.skip("http://"@.len() as int);
        if is_local(rest) {
            None
        } else {
            Some(cleartext_base(base))
        }
    } else {
        Some(unknown_base(base))
    }
}

/// Whether the host is the loopback address of version 6, in its brackets.
fn is_loopback(rest: &str) -> (r: bool)
    ensures
        r == (starts_with(rest@, "[::1]"@) && host_end(rest@, "[::1]"@.len())
            == "[::1]"@.len()),
{
    match strip_prefix(rest, "[::1]") {
        None => false,
        Some(behind) => {
            let chars: Vec<char> = chars_of(behind.as_str());
            proof {
                if behind@.len() > 0 {
                    assert(rest@["[::1]"@.len() as int] == behind@[0]);
                    lemma_host_end(rest@, "[::1]"@.len() + 1);
                }
            }
            chars.len() == 0 || chars[0] == '/' || chars[0] == ':'
        },
    }
}

proof fn lemma_host_end(s: Seq<char>, from: nat)
    requires
        from <= s.len(),
    ensures
        from <= host_end(s, from) <= s.len(),
    decreases s.len() - from,
{
    if from < s.len() {
        lemma_host_end(s, from + 1);
    }
}

/// Whether a key may be sent to an address, and why not.
pub fn require_secure_base_url(base_url: &str) -> (out: Result<(), String>)
    ensures
        match out {
            Ok(_) => insecure(base_url@) is None,
            Err(e) => insecure(base_url@) == Some(e@),
        },
{
    if has_prefix(base_url, "https://") {
        return Ok(());
    }
    match strip_prefix(base_url, "http://") {
        None => Err(say_unknown_base(base_url)),
        Some(rest) => {
            let chars: Vec<char> = chars_of(rest.as_str());
            let mut i: usize = 0;
            while i < chars.len() && chars[i] != '/' && chars[i] != ':'
                invariant
                    i <= chars@.len(),
                    chars@ == rest@,
                    host_end(rest@, 0) == host_end(rest@, i as nat),
                decreases chars@.len() - i,
            {
                i += 1;
            }
            let host: String = text_of(&chars, 0, i);
            assert(host@ =~= rest@.take(host_end(rest@, 0) as int));
            let host: &str = host.as_str();
            if same_text(host, "localhost") || same_text(host, "127.0.0.1") || is_loopback(
                rest.as_str(),
            ) {
                Ok(())
            } else {
                Err(say_cleartext_base(base_url))
            }
        },
    }
}

pub open spec fn key_without_model() -> Seq<char> {
    "NIRDOSHA_LLM_PROVIDER_KEY is set but NIRDOSHA_LLM_PROVIDER_MODEL is not -- both are \
    required together"@
}

fn say_key_without_model() -> (out: String)
    ensures
        out@ == key_without_model(),
{
    "NIRDOSHA_LLM_PROVIDER_KEY is set but NIRDOSHA_LLM_PROVIDER_MODEL is not -- both are \
        required together".to_owned()
}

pub open spec fn model_without_key() -> Seq<char> {
    "NIRDOSHA_LLM_PROVIDER_MODEL is set but NIRDOSHA_LLM_PROVIDER_KEY is not -- both are \
    required together"@
}

fn say_model_without_key() -> (out: String)
    ensures
        out@ == model_without_key(),
{
    "NIRDOSHA_LLM_PROVIDER_MODEL is set but NIRDOSHA_LLM_PROVIDER_KEY is not -- both are \
        required together".to_owned()
}

pub open spec fn no_provider() -> Seq<char> {
    "no LLM provider configured -- set either:\n  NIRDOSHA_LLM_PROVIDER_KEY + \
    NIRDOSHA_LLM_PROVIDER_MODEL (optionally NIRDOSHA_LLM_PROVIDER_BASE, default \
    https://api.openai.com/v1)\nor:\n  OPENAI_API_KEY (a real OpenAI key)"@
}

fn say_no_provider() -> (out: String)
    ensures
        out@ == no_provider(),
{
    "no LLM provider configured -- set either:\n  NIRDOSHA_LLM_PROVIDER_KEY + \
        NIRDOSHA_LLM_PROVIDER_MODEL (optionally NIRDOSHA_LLM_PROVIDER_BASE, default \
        https://api.openai.com/v1)\nor:\n  OPENAI_API_KEY (a real OpenAI key)".to_owned()
}

/// The provider that the settings name. The timeout is read first; a key and a
/// model go together; without either, an OpenAI key stands in.
pub open spec fn activated(
    timeout: Option<Seq<char>>,
    key: Option<Seq<char>>,
    model: Option<Seq<char>>,
    base: Option<Seq<char>>,
    openai: Option<Seq<char>>,
) -> Result<ActivationView, Seq<char>> {
    match timeout_of(timeout) {
        Err(e) => Err(e),
        Ok(secs) => match (key, model) {
            (Some(api_key), Some(model)) => {
                let base_url = match base {
                    Some(b) => b,
                    None => "https://api.openai.com/v1"@,
                };
                match insecure(base_url) {
                    Some(e) => Err(e),
                    None => Ok(ActivationView { api_key, model, base_url, timeout_secs: secs }),
                }
            },
            (Some(_), None) => Err(key_without_model()),
            (None, Some(_)) => Err(model_without_key()),
            (None, None) => match openai {
                Some(api_key) => Ok(
                    ActivationView {
                        api_key,
                        model: "gpt-4o-mini"@,
                        base_url: "https://api.openai.com/v1"@,
                        timeout_secs: secs,
                    },
                ),
                None => Err(no_provider()),
            },
        },
    }
}

/// The provider that the settings of the environment name.
pub open spec fn env_activated(env: ProviderEnv) -> Result<ActivationView, Seq<char>> {
    activated(
        crate::composer::decl::opt_text(env.timeout_secs),
        crate::composer::decl::opt_text(env.key),
        crate::composer::decl::opt_text(env.model),
        crate::composer::decl::opt_text(env.base_url),
        crate::composer::decl::opt_text(env.openai_key),
    )
}

/// The provider that the settings of the environment name, or what is wrong
/// with them.
pub fn resolve_activation(env: &ProviderEnv) -> (out: Result<Activation, String>)
    ensures
        match out {
            Ok(a) => env_activated(*env) == Ok::<ActivationView, Seq<char>>(a@),
            Err(e) => env_activated(*env) == Err::<ActivationView, Seq<char>>(e@),
        },
{
    let timeout_secs: u64 = match read_timeout(&env.timeout_secs) {
        Ok(n) => n,
        Err(e) => {
            return Err(e);
        },
    };
    match (&env.key, &env.model) {
        (Some(key), Some(model)) => {
            let base_url: String = match &env.base_url {
                Some(b) => b.clone(),
                None => "https://api.openai.com/v1".to_owned(),
            };
            match require_secure_base_url(base_url.as_str()) {
                Err(e) => Err(e),
                Ok(_) => Ok(
                    Activation { api_key: key.clone(), model: model.clone(), base_url, timeout_secs },
                ),
            }
        },
        (Some(_), None) => Err(say_key_without_model()),
        (None, Some(_)) => Err(say_model_without_key()),
        (None, None) => match &env.openai_key {
            Some(key) => Ok(
                Activation {
                    api_key: key.clone(),
                    model: "gpt-4o-mini".to_owned(),
                    base_url: "https://api.openai.com/v1".to_owned(),
                    timeout_secs,
                },
            ),
            None => Err(say_no_provider()),
        },
    }
}

/// A key is only ever sent where it cannot be read on the way: the address of
/// a provider is encrypted or on this machine.
pub proof fn law_a_key_is_sent_safely(env: ProviderEnv)
    requires
        env_activated(env) is Ok,
    ensures
        insecure(env_activated(env)->Ok_0.base_url) is None,
        env_activated(env)->Ok_0.timeout_secs > 0,
{
    assert(starts_with("https://api.openai.com/v1"@, "https://"@)) by {
        reveal_strlit("https://api.openai.com/v1");
        reveal_strlit("https://");
        assert("https://api.openai.com/v1"@.subrange(0, 8) =~= "https://"@);
    }
}

/// How long a provider may take: five minutes unless the setting says otherwise;
/// what is no number, or is nought, is refused.
pub proof fn law_timeouts(raw: Seq<char>)
    ensures
        timeout_of(None) == Ok::<nat, Seq<char>>(300),
        timeout_of(Some(raw)) is Ok <==> parsed_u64(raw) is Some && parsed_u64(raw)->Some_0 > 0,
        timeout_of(Some(raw)) matches Ok(n) ==> parsed_u64(raw) == Some(n),
{
}

proof fn lemma_where_a_host_ends(s: Seq<char>, from: nat)
    requires
        from <= s.len(),
    ensures
        from <= host_end(s, from) <= s.len(),
        forall|i: int| from <= i < host_end(s, from) ==> #[trigger] s[i] != '/' && s[i] != ':',
        host_end(s, from) < s.len() ==> s[host_end(s, from) as int] == '/' || s[host_end(
            s,
            from,
        ) as int] == ':',
    decreases s.len() - from,
{
    if from < s.len() && s[from as int] != '/' && s[from as int] != ':' {
        lemma_where_a_host_ends(s, from + 1);
    }
}

/// A host of this machine: `localhost`, `127.0.0.1` or `[::1]`, and behind it
/// nothing, a path or a port.
pub open spec fn stays_here(rest: Seq<char>, host: Seq<char>) -> bool {
    &&& starts_with(rest, host)
    &&& rest.len() == host.len() || rest[host.len() as int] == '/' || rest[host.len() as int] == ':'
}

proof fn lemma_stays_here(rest: Seq<char>, host: Seq<char>)
    requires
        forall|i: int| 0 <= i < host.len() ==> #[trigger] host[i] != '/' && host[i] != ':',
    ensures
        rest.take(host_end(rest, 0) as int) == host <==> stays_here(rest, host),
{
    lemma_where_a_host_ends(rest, 0);
    let at = host_end(rest, 0) as int;
    if rest.take(at) == host {
        assert(rest.subrange(0, host.len() as int) =~= host);
    }
    if stays_here(rest, host) {
        assert forall|i: int| 0 <= i < host.len() implies #[trigger] rest[i] == host[i] by {
            assert(rest.subrange(0, host.len() as int)[i] == host[i]);
        }
        if at < host.len() {
            assert(rest[at] == host[at]);
        }
        assert(at == host.len());
        assert(rest.take(at) =~= host);
    }
}

/// A key may be sent to an address exactly where it is encrypted or stays on
/// this machine.
pub proof fn law_where_a_key_may_go(base: Seq<char>)
    ensures
        insecure(base) is None <==> starts_with(base, "https://"@) || (starts_with(
            base,
            "http://"@,
        ) && ({
            let rest = base.skip(7);
            stays_here(rest, "localhost"@) || stays_here(rest, "127.0.0.1"@) || stays_here(
                rest,
                "[::1]"@,
            )
        })),
{
    reveal_strlit("http://");
    reveal_strlit("localhost");
    reveal_strlit("127.0.0.1");
    reveal_strlit("[::1]");
    let rest = base.skip(7);
    lemma_stays_here(rest, "localhost"@);
    lemma_stays_here(rest, "127.0.0.1"@);
    if starts_with(rest, "[::1]"@) {
        lemma_where_a_host_ends(rest, "[::1]"@.len());
    }
}

/// The provider that the settings name: a key and a model go together, the
/// address is the one that is set or the common one, and without either an
/// OpenAI key stands in. Everything else is refused.
pub proof fn law_settings_of_a_provider(
    timeout: Option<Seq<char>>,
    key: Option<Seq<char>>,
    model: Option<Seq<char>>,
    base: Option<Seq<char>>,
    openai: Option<Seq<char>>,
)
    ensures
        ({
            let made = activated(timeout, key, model, base, openai);
            let at = if base is Some {
                base->Some_0
            } else {
                "https://api.openai.com/v1"@
            };
            let own = key is Some && model is Some && insecure(at) is None;
            let stood_in = key is None && model is None && openai is Some;
            &&& made is Ok <==> timeout_of(timeout) is Ok && (own || stood_in)
            &&& made is Ok ==> made->Ok_0.timeout_secs == timeout_of(timeout)->Ok_0
            &&& made is Ok && own ==> {
                &&& made->Ok_0.api_key == key->Some_0
                &&& made->Ok_0.model == model->Some_0
                &&& made->Ok_0.base_url == at
            }
            &&& made is Ok && stood_in ==> {
                &&& made->Ok_0.api_key == openai->Some_0
                &&& made->Ok_0.model == "gpt-4o-mini"@
                &&& made->Ok_0.base_url == "https://api.openai.com/v1"@
            }
        }),
{
}

/// What is said of the configuration shows what was configured, in its place.
pub proof fn law_what_is_said(a: Seq<char>, b: Seq<char>, c: Seq<char>)
    ensures
        shown_activation(a, b, c) == "Activation { api_key: "@ + a + ", model: "@ + b + ", base_url: "@ + c + " }"@,
        not_a_timeout(a) == "NIRDOSHA_LLM_PROVIDER_TIMEOUT_SECS is set to `"@ + a + "`, which isn't a whole number of seconds"@,
        cleartext_base(a) == "NIRDOSHA_LLM_PROVIDER_BASE is `"@ + a + "` -- a plain http:// base would send the bearer API key in cleartext; use https://, or \
    http://localhost (and equivalents) for a local gateway"@,
        unknown_base(a) == "NIRDOSHA_LLM_PROVIDER_BASE is `"@ + a + "` -- must start with https:// (or http://localhost for a local gateway)"@,
{
}

/// Of a key four stars are shown and, where it has more than four characters, its
/// last four: never more of it.
pub proof fn law_what_is_shown_of_a_key(key: Seq<char>)
    ensures
        key.len() <= 4 ==> redacted(key) == seq!['*', '*', '*', '*'],
        key.len() > 4 ==> redacted(key) == seq!['*', '*', '*', '*'] + key.subrange(
            key.len() - 4,
            key.len() as int,
        ),
{
    reveal_strlit("****");
    assert("****"@ =~= seq!['*', '*', '*', '*']);
}

} // verus!
