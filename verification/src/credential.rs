use std::sync::Arc;
use vstd::prelude::*;
use vstd::string::StringExecFns;
use crate::text::opt_text;

verus! {

/// Client ID of Microsoft's public developer sign-on application, used when none is given.
pub open spec fn default_client_id() -> Seq<char> {
    "04b07795-8ddb-461a-bbee-02f9e1bf7b46"@
}

/// Tenant used when none is given.
pub open spec fn default_tenant_id() -> Seq<char> {
    "organizations"@
}

/// Redirect URL used when none is given: the local server's address.
pub open spec fn default_redirect_url() -> Seq<char> {
    "http://localhost:47828"@
}

/// Prompt behavior used when none is given.
pub open spec fn default_prompt() -> Seq<char> {
    "select_account"@
}

/// Options for constructing a new [`InteractiveBrowserCredential`].
#[derive(Debug)]
pub struct InteractiveBrowserCredentialOptions {
    /// The client ID to use for authentication.
    /// Defaults to Microsoft's public developer sign-on if not specified.
    pub client_id: Option<String>,
    /// The tenant ID to use for authentication.
    /// Defaults to "organizations" if not specified.
    pub tenant_id: Option<String>,
    /// The redirect URL to use for authentication.
    /// Defaults to http://localhost:<LOCAL_SERVER_PORT> if not specified.
    pub redirect_url: Option<String>,
    /// Prompt behavior for the authentication request.
    /// Possible values include "login", "none", "consent", and "select_account".
    /// Defaults to "select_account" if not specified.
    pub prompt: Option<String>,
    /// Additional tenants for which the credential may acquire tokens.
    /// Add the wildcard value "*" to allow the credential to acquire tokens for any tenant.
    pub additionally_allowed_tenants: Vec<String>,
}

/// No client, tenant or redirect URL; the `select_account` prompt; no additional tenants.
pub open spec fn is_default_options(o: InteractiveBrowserCredentialOptions) -> bool {
    &&& o.client_id is None
    &&& o.tenant_id is None
    &&& o.redirect_url is None
    &&& opt_text(o.prompt) == Some(default_prompt())
    &&& o.additionally_allowed_tenants@ == Seq::<String>::empty()
}

impl Default for InteractiveBrowserCredentialOptions {
    /// No client, tenant or redirect URL; the `select_account` prompt; no additional tenants.
    fn default() -> (r: Self)
        ensures
            is_default_options(r),
    {
        InteractiveBrowserCredentialOptions {
            client_id: None,
            tenant_id: None,
            redirect_url: None,
            prompt: Some(String::from_str("select_account")),
            additionally_allowed_tenants: Vec::new(),
        }
    }
}

/// Provides interactive browser-based authentication.
#[derive(Debug)]
pub struct InteractiveBrowserCredential {
    client_id: String,
    tenant_id: String,
    redirect_url: String,
    prompt: String,
    options: InteractiveBrowserCredentialOptions,
}

pub struct CredentialView {
    pub client_id: Seq<char>,
    pub tenant_id: Seq<char>,
    pub redirect_url: Seq<char>,
    pub prompt: Seq<char>,
}

/// The text of an option given, or the default one.
pub open spec fn text_or(o: Option<String>, default: Seq<char>) -> Seq<char> {
    match o {
        Some(s) => s@,
        None => default,
    }
}

/// What `Url::parse` gives for a text: the serialization of the URL it parses, or
/// `None` when the text is not a URL.
pub uninterp spec fn parsed_url(s: Seq<char>) -> Option<Seq<char>>;

/// Calls `url::Url::parse` (re-exported by `oauth2`) and gives back the serialization of
/// the parsed URL (`String::from(Url)`), or `None` on a parse error. The result, a
/// function of `s` alone, is named `parsed_url`; the WHATWG parsing rules are not
/// written out.
#[verifier::external_body]
fn parse_url(s: &str) -> (r: Option<String>)
    ensures
        opt_text(r) == parsed_url(s@),
{
    oauth2::url::Url::parse(s).ok().map(String::from)
}

/// The redirect URL text of `options`: the one given, or the default one.
pub open spec fn redirect_text(options: InteractiveBrowserCredentialOptions) -> Seq<char> {
    text_or(options.redirect_url, default_redirect_url())
}

/// What a credential built from `options` holds, once its redirect URL text has parsed
/// to `redirect`: each value given, and the default of each one missing.
pub open spec fn credential_from(
    options: InteractiveBrowserCredentialOptions,
    redirect: Seq<char>,
) -> CredentialView {
    CredentialView {
        client_id: text_or(options.client_id, default_client_id()),
        tenant_id: text_or(options.tenant_id, default_tenant_id()),
        redirect_url: redirect,
        prompt: text_or(options.prompt, default_prompt()),
    }
}

impl View for InteractiveBrowserCredential {
    type V = CredentialView;

    closed spec fn view(&self) -> CredentialView {
        CredentialView {
            client_id: self.client_id@,
            tenant_id: self.tenant_id@,
            redirect_url: self.redirect_url@,
            prompt: self.prompt@,
        }
    }
}

/// An error of the credential.
#[derive(Debug, Clone, Copy, PartialEq, Eq, Structural)]
pub enum IdentityError {
    /// The browser flow gave no authorization code.
    AuthorizationCodeMissing,
    /// The redirect URL is not a URL.
    InvalidRedirectUrl,
}

impl IdentityError {
    /// The error's message.
    pub fn message(&self) -> (m: &'static str)
        ensures
            m@ == match self {
                IdentityError::AuthorizationCodeMissing => "Failed to retrieve authorization code."@,
                IdentityError::InvalidRedirectUrl => "Failed to parse redirect URL"@,
            },
    {
        match self {
            IdentityError::AuthorizationCodeMissing => "Failed to retrieve authorization code.",
            IdentityError::InvalidRedirectUrl => "Failed to parse redirect URL",
        }
    }
}

fn text_or_default(o: &Option<String>, default: &str) -> (r: String)
    ensures
        r@ == text_or(*o, default@),
{
    match o {
        Some(s) => s.clone(),
        None => String::from_str(default),
    }
}

impl InteractiveBrowserCredential {
    /// The options the credential was built from (the defaults when none were given).
    pub closed spec fn spec_options(&self) -> InteractiveBrowserCredentialOptions {
        self.options
    }

    /// Builds a credential from `options` and what parsing its redirect URL text gave:
    /// the parsed URL, or `None` when the text is not a URL, which is an error.
    pub fn from_parsed(
        options: InteractiveBrowserCredentialOptions,
        parsed_redirect: Option<String>,
    ) -> (r: Result<Arc<Self>, IdentityError>)
        ensures
            match parsed_redirect {
                None => r == Err::<Arc<Self>, IdentityError>(IdentityError::InvalidRedirectUrl),
                Some(u) => r matches Ok(c) && c@ == credential_from(options, u@)
                    && c.spec_options() == options,
            },
    {
        let redirect_url = match parsed_redirect {
            Some(u) => u,
            None => return Err(IdentityError::InvalidRedirectUrl),
        };
        let client_id = text_or_default(&options.client_id, "04b07795-8ddb-461a-bbee-02f9e1bf7b46");
        let tenant_id = text_or_default(&options.tenant_id, "organizations");
        let prompt = text_or_default(&options.prompt, "select_account");
        Ok(Arc::new(InteractiveBrowserCredential { client_id, tenant_id, redirect_url, prompt, options }))
    }

    /// Creates a new `InteractiveBrowserCredential` from `options`, or from the default
    /// options when `None`: each missing value takes its default. It fails exactly when
    /// the redirect URL does not parse.
    pub fn new(options: Option<InteractiveBrowserCredentialOptions>) -> (r: Result<
        Arc<Self>,
        IdentityError,
    >)
        ensures
            r matches Err(e) ==> e == IdentityError::InvalidRedirectUrl,
            match options {
                Some(o) => {
                    &&& (r is Ok <==> parsed_url(redirect_text(o)) is Some)
                    &&& r matches Ok(c) ==> c@ == credential_from(o, parsed_url(redirect_text(o))->0)
                        && c.spec_options() == o
                },
                None => {
                    &&& (r is Ok <==> parsed_url(default_redirect_url()) is Some)
                    &&& r matches Ok(c) ==> {
                        &&& c@ == (CredentialView {
                            client_id: default_client_id(),
                            tenant_id: default_tenant_id(),
                            redirect_url: parsed_url(default_redirect_url())->0,
                            prompt: default_prompt(),
                        })
                        &&& is_default_options(c.spec_options())
                    }
                },
            },
    {
        let options = match options {
            Some(o) => o,
            None => InteractiveBrowserCredentialOptions::default(),
        };
        let redirect_text = text_or_default(&options.redirect_url, "http://localhost:47828");
        let parsed = parse_url(redirect_text.as_str());
        Self::from_parsed(options, parsed)
    }

    /// Creates a credential from a client ID, a tenant ID and a redirect URL, each optional;
    /// the other options are the defaults.
    pub fn new_with_params(
        client_id: Option<String>,
        tenant_id: Option<String>,
        redirect_url: Option<String>,
    ) -> (r: Result<Arc<Self>, IdentityError>)
        ensures
            (r is Ok <==> parsed_url(text_or(redirect_url, default_redirect_url())) is Some),
            r matches Err(e) ==> e == IdentityError::InvalidRedirectUrl,
            r matches Ok(c) ==> {
                &&& c@ == (CredentialView {
                    client_id: text_or(client_id, default_client_id()),
                    tenant_id: text_or(tenant_id, default_tenant_id()),
                    redirect_url: parsed_url(text_or(redirect_url, default_redirect_url()))->0,
                    prompt: default_prompt(),
                })
                &&& opt_text(c.spec_options().prompt) == Some(default_prompt())
                &&& c.spec_options().client_id == client_id
                &&& c.spec_options().tenant_id == tenant_id
                &&& c.spec_options().redirect_url == redirect_url
                &&& c.spec_options().additionally_allowed_tenants@ == Seq::<String>::empty()
            },
    {
        let defaults = InteractiveBrowserCredentialOptions::default();
        let options = InteractiveBrowserCredentialOptions {
            client_id,
            tenant_id,
            redirect_url,
            prompt: defaults.prompt,
            additionally_allowed_tenants: defaults.additionally_allowed_tenants,
        };
        Self::new(Some(options))
    }

    /// The client ID of the application.
    pub fn client_id(&self) -> (r: &str)
        ensures
            r@ == self@.client_id,
    {
        self.client_id.as_str()
    }

    /// The tenant of the authentication request.
    pub fn tenant_id(&self) -> (r: &str)
        ensures
            r@ == self@.tenant_id,
    {
        self.tenant_id.as_str()
    }

    /// Where the authentication response is sent.
    pub fn redirect_url(&self) -> (r: &str)
        ensures
            r@ == self@.redirect_url,
    {
        self.redirect_url.as_str()
    }

    /// The prompt behavior of the authentication request.
    pub fn prompt(&self) -> (r: &str)
        ensures
            r@ == self@.prompt,
    {
        self.prompt.as_str()
    }

    /// The options the credential was built from.
    pub fn options(&self) -> (r: &InteractiveBrowserCredentialOptions)
        ensures
            *r == self.spec_options(),
    {
        &self.options
    }
}

} // verus!

verus! {

/// A credential's client ID, tenant and prompt are the given ones, or
/// `04b07795-8ddb-461a-bbee-02f9e1bf7b46`, `organizations` and `select_account` when
/// missing, and its redirect URL is the parsed one: each depends on its own option
/// alone, so options that differ only in other fields (the additionally allowed tenants
/// among them) give the same credential.
pub proof fn lemma_each_value_from_its_own_option(
    o1: InteractiveBrowserCredentialOptions,
    o2: InteractiveBrowserCredentialOptions,
    redirect: Seq<char>,
)
    ensures
        credential_from(o1, redirect).client_id == match o1.client_id {
            Some(c) => c@,
            None => "04b07795-8ddb-461a-bbee-02f9e1bf7b46"@,
        },
        credential_from(o1, redirect).tenant_id == match o1.tenant_id {
            Some(t) => t@,
            None => "organizations"@,
        },
        credential_from(o1, redirect).prompt == match o1.prompt {
            Some(p) => p@,
            None => "select_account"@,
        },
        credential_from(o1, redirect).redirect_url == redirect,
        (o1.client_id == o2.client_id && o1.tenant_id == o2.tenant_id && o1.prompt == o2.prompt)
            ==> credential_from(o1, redirect) == credential_from(o2, redirect),
{
}

} // verus!
