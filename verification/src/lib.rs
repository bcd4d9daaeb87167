pub mod text;
pub mod auth_code;
pub mod scopes;
pub mod flow;
pub mod credential;
pub mod token;

pub use auth_code::extract_auth_code;
pub use credential::{IdentityError, InteractiveBrowserCredential, InteractiveBrowserCredentialOptions};
pub use flow::{AcceptOutcome, AuthFlow, FlowAction, FlowEvent, LaunchStage, Outcome, Phase, Platform, LOCAL_SERVER_PORT};
pub use scopes::combine_scopes;
pub use token::{authorization_code_or_error, token_lifetime_secs};
