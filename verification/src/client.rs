//! Where the requests of the Pipelit API go, and how they are signed.
use vstd::prelude::*;
use crate::text::{chars_of, string_from_range, concat, copy_str};
use crate::json::{json_of, json_value, member_of, str_member, str_of};

verus! {

/// `s` without its trailing `c`s (`str::trim_end_matches`).
pub open spec fn trim_end_char(s: Seq<char>, c: char) -> Seq<char>
    decreases s.len(),
{
    if s.len() > 0 && s.last() == c {
        trim_end_char(s.drop_last(), c)
    } else {
        s
    }
}

/// The server an API client talks to, and the token it signs with.
pub struct PipelitClient {
    pub base_url: String,
    pub token: String,
}

/// How a response status reads.
#[derive(Clone, Copy, PartialEq, Eq, Debug)]
pub enum StatusClass {
    Success,
    Unauthorized,
    Failure,
}

/// Sorts a response status: 2xx succeeds, 401 is an unaccepted token, and
/// anything else fails.
pub fn classify_status(code: u16) -> (r: StatusClass)
    ensures
        r == (if 200 <= code < 300 {
            StatusClass::Success
        } else if code == 401 {
            StatusClass::Unauthorized
        } else {
            StatusClass::Failure
        }),
{
    if 200 <= code && code < 300 {
        StatusClass::Success
    } else if code == 401 {
        StatusClass::Unauthorized
    } else {
        StatusClass::Failure
    }
}

impl PipelitClient {
    /// A client of the server at `base_url`, its trailing slashes dropped.
    pub fn new(base_url: &str, token: &str) -> (c: PipelitClient)
        ensures
            c.base_url@ == trim_end_char(base_url@, '/'),
            c.token@ == token@,
    {
        let v = chars_of(base_url);
        let mut end = v.len();
        assert(v@.take(end as int) =~= v@);
        while end > 0 && v[end - 1] == '/'
            invariant
                end <= v@.len(),
                v@ == base_url@,
                trim_end_char(base_url@, '/') == trim_end_char(v@.take(end as int), '/'),
            decreases end,
        {
            assert(v@.take(end as int).drop_last() =~= v@.take(end - 1));
            end = end - 1;
        }
        assert(v@.take(end as int) =~= v@.subrange(0, end as int));
        assert(end == 0 ==> v@.take(0).len() == 0);
        PipelitClient { base_url: string_from_range(&v, 0, end), token: copy_str(token) }
    }

    /// The `Authorization` header's value.
    pub fn auth_header(&self) -> (r: String)
        ensures
            r@ == "Bearer "@ + self.token@,
    {
        concat("Bearer ", self.token.as_str())
    }

    /// The address of `path` on the server.
    fn endpoint(&self, path: &str) -> (r: String)
        ensures
            r@ == self.base_url@ + path@,
    {
        concat(self.base_url.as_str(), path)
    }

    /// Where the token is checked.
    pub fn me_url(&self) -> (r: String)
        ensures
            r@ == self.base_url@ + "/api/v1/auth/me/"@,
    {
        self.endpoint("/api/v1/auth/me/")
    }

    /// Where the workflows are listed.
    pub fn workflows_url(&self) -> (r: String)
        ensures
            r@ == self.base_url@ + "/api/v1/workflows/"@,
    {
        self.endpoint("/api/v1/workflows/")
    }

    /// Where one workflow is described.
    pub fn workflow_url(&self, slug: &str) -> (r: String)
        ensures
            r@ == self.base_url@ + "/api/v1/workflows/"@ + slug@ + "/"@,
    {
        let a = self.endpoint("/api/v1/workflows/");
        let b = concat(a.as_str(), slug);
        concat(b.as_str(), "/")
    }

    /// Where chat messages are sent to a workflow.
    pub fn chat_url(&self, slug: &str) -> (r: String)
        ensures
            r@ == self.base_url@ + "/api/v1/workflows/"@ + slug@ + "/chat/"@,
    {
        let a = self.endpoint("/api/v1/workflows/");
        let b = concat(a.as_str(), slug);
        concat(b.as_str(), "/chat/")
    }

    /// Where a workflow's last two hundred chat messages are read.
    pub fn history_url(&self, slug: &str) -> (r: String)
        ensures
            r@ == self.base_url@ + "/api/v1/workflows/"@ + slug@ + "/chat/history?limit=200"@,
    {
        let a = self.endpoint("/api/v1/workflows/");
        let b = concat(a.as_str(), slug);
        concat(b.as_str(), "/chat/history?limit=200")
    }
}

/// Why the reply to the token check names no user.
#[derive(Clone, Copy, PartialEq, Eq, Debug)]
pub enum UserInfoError {
    /// The reply is not JSON.
    NotJson,
    /// The reply has no string `username`.
    NoUsername,
}

/// The user name in the reply to the token check: the string member
/// `username` of the JSON body.
pub fn user_name(body: &str) -> (r: Result<String, UserInfoError>)
    ensures
        match json_of(body@) {
            None => r == Err::<String, UserInfoError>(UserInfoError::NotJson),
            Some(v) => match str_of(member_of(v, "username"@)) {
                Some(u) => r matches Ok(s) && s@ == u,
                None => r == Err::<String, UserInfoError>(UserInfoError::NoUsername),
            },
        },
{
    match json_value(body) {
        None => Err(UserInfoError::NotJson),
        Some(v) => match str_member(&v, "username") {
            Some(u) => Ok(u),
            None => Err(UserInfoError::NoUsername),
        },
    }
}

} // verus!
