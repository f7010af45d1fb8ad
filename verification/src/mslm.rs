//! The facade client: owns the base client and one client per endpoint
//! group, and fans every configuration change out to all of them, so
//! that they stay consistent.  There is no ambient global state: each
//! client instance carries its own configuration.

use vstd::prelude::*;

use crate::client::BaseClient;
use crate::email_verify::EmailVerifyClient;
use crate::otp::OtpClient;
use crate::trusted::{new_http_client, url_norm};

verus! {

/// The top-level client: the shared base client and the two endpoint
/// clients.
pub struct Client {
    pub c: BaseClient,
    pub email_verify: EmailVerifyClient,
    pub otp: OtpClient,
}

/// All owned clients hold the same configuration.
pub open spec fn configs_agree(c: Client) -> bool {
    &&& c.email_verify.client.http == c.c.http
    &&& c.otp.client.http == c.c.http
    &&& c.email_verify.client.base_url@ == c.c.base_url@
    &&& c.otp.client.base_url@ == c.c.base_url@
    &&& c.email_verify.client.user_agent@ == c.c.user_agent@
    &&& c.otp.client.user_agent@ == c.c.user_agent@
    &&& c.email_verify.client.api_key@ == c.c.api_key@
    &&& c.otp.client.api_key@ == c.c.api_key@
}

impl Client {
    /// A facade whose three clients share one transport, the default
    /// base URL and user agent, and the given API key.
    pub fn init(api_key: &str) -> (c: Client)
        ensures
            configs_agree(c),
            c.c.api_key@ == api_key@,
            c.c.base_url@ == "https://mslm.io/"@,
            c.c.user_agent@ == "mslm/rust/1.0.0"@,
    {
        let mut client = Client {
            c: BaseClient::new(),
            email_verify: EmailVerifyClient::new(api_key),
            otp: OtpClient::new(api_key),
        };
        client.set_http_client(new_http_client());
        client.set_api_key(api_key);
        client
    }

    /// A facade with the default configuration and an empty API key.
    pub fn init_defaults() -> (c: Client)
        ensures
            configs_agree(c),
            c.c.api_key@ == Seq::<char>::empty(),
            c.c.base_url@ == "https://mslm.io/"@,
            c.c.user_agent@ == "mslm/rust/1.0.0"@,
    {
        let c = Client::init("");
        proof {
            reveal_strlit("");
            assert(""@ =~= Seq::<char>::empty());
        }
        c
    }

    /// Sets the same transport on the base client and on every endpoint
    /// client.
    pub fn set_http_client(&mut self, http_client: reqwest::blocking::Client)
        ensures
            final(self).c.http == http_client,
            final(self).email_verify.client.http == http_client,
            final(self).otp.client.http == http_client,
            final(self).c.base_url == old(self).c.base_url,
            final(self).c.user_agent == old(self).c.user_agent,
            final(self).c.api_key == old(self).c.api_key,
            final(self).email_verify.client.base_url == old(self).email_verify.client.base_url,
            final(self).email_verify.client.user_agent == old(self).email_verify.client.user_agent,
            final(self).email_verify.client.api_key == old(self).email_verify.client.api_key,
            final(self).otp.client.base_url == old(self).otp.client.base_url,
            final(self).otp.client.user_agent == old(self).otp.client.user_agent,
            final(self).otp.client.api_key == old(self).otp.client.api_key,
    {
        self.c.set_http_client(http_client.clone());
        self.email_verify.set_http_client(http_client.clone());
        self.otp.set_http_client(http_client);
    }

    /// Sets the same base URL everywhere: on success all three clients
    /// hold its normalized form, on failure none of them changes.
    pub fn set_base_url(&mut self, base_url_str: &str) -> (r: Result<(), url::ParseError>)
        ensures
            r is Ok <==> url_norm(base_url_str@) is Some,
            r is Ok ==> Some(final(self).c.base_url@) == url_norm(base_url_str@) && Some(
                final(self).email_verify.client.base_url@,
            ) == url_norm(base_url_str@) && Some(final(self).otp.client.base_url@) == url_norm(
                base_url_str@,
            ),
            r is Err ==> final(self).c.base_url == old(self).c.base_url
                && final(self).email_verify.client.base_url
                == old(self).email_verify.client.base_url
                && final(self).otp.client.base_url == old(self).otp.client.base_url,
            final(self).c.http == old(self).c.http,
            final(self).c.user_agent == old(self).c.user_agent,
            final(self).c.api_key == old(self).c.api_key,
            final(self).email_verify.client.http == old(self).email_verify.client.http,
            final(self).email_verify.client.user_agent == old(self).email_verify.client.user_agent,
            final(self).email_verify.client.api_key == old(self).email_verify.client.api_key,
            final(self).otp.client.http == old(self).otp.client.http,
            final(self).otp.client.user_agent == old(self).otp.client.user_agent,
            final(self).otp.client.api_key == old(self).otp.client.api_key,
    {
        match self.c.set_base_url(base_url_str) {
            Ok(()) => {
                let _r2 = self.email_verify.set_base_url(base_url_str);
                let _r3 = self.otp.set_base_url(base_url_str);
                Ok(())
            },
            Err(e) => Err(e),
        }
    }

    /// Sets the same user agent on all three clients.
    pub fn set_user_agent(&mut self, user_agent: &str)
        ensures
            final(self).c.user_agent@ == user_agent@,
            final(self).email_verify.client.user_agent@ == user_agent@,
            final(self).otp.client.user_agent@ == user_agent@,
            final(self).c.http == old(self).c.http,
            final(self).c.base_url == old(self).c.base_url,
            final(self).c.api_key == old(self).c.api_key,
            final(self).email_verify.client.http == old(self).email_verify.client.http,
            final(self).email_verify.client.base_url == old(self).email_verify.client.base_url,
            final(self).email_verify.client.api_key == old(self).email_verify.client.api_key,
            final(self).otp.client.http == old(self).otp.client.http,
            final(self).otp.client.base_url == old(self).otp.client.base_url,
            final(self).otp.client.api_key == old(self).otp.client.api_key,
    {
        self.c.set_user_agent(user_agent);
        self.email_verify.set_user_agent(user_agent);
        self.otp.set_user_agent(user_agent);
    }

    /// Sets the same API key on all three clients.
    pub fn set_api_key(&mut self, api_key: &str)
        ensures
            final(self).c.api_key@ == api_key@,
            final(self).email_verify.client.api_key@ == api_key@,
            final(self).otp.client.api_key@ == api_key@,
            final(self).c.http == old(self).c.http,
            final(self).c.base_url == old(self).c.base_url,
            final(self).c.user_agent == old(self).c.user_agent,
            final(self).email_verify.client.http == old(self).email_verify.client.http,
            final(self).email_verify.client.base_url == old(self).email_verify.client.base_url,
            final(self).email_verify.client.user_agent == old(self).email_verify.client.user_agent,
            final(self).otp.client.http == old(self).otp.client.http,
            final(self).otp.client.base_url == old(self).otp.client.base_url,
            final(self).otp.client.user_agent == old(self).otp.client.user_agent,
    {
        self.c.set_api_key(api_key);
        self.email_verify.set_api_key(api_key);
        self.otp.set_api_key(api_key);
    }
}

} // verus!
