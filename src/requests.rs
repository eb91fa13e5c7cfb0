//! The request bodies and queries of the account and token endpoints, and
//! how each is validated.
use vstd::prelude::*;

use crate::api_error::{body_finding, details_view, APIResponseErrorDetail, DetailView};
use crate::gate::comma_from;
use crate::input_validation::{
    all_white_space, byte_len, country_code_shape, email_shape, is_blank, is_valid_country_code,
    is_valid_email,
    is_valid_name, meets_password_complexity, password_meets, string_to_uuid, uuid_text_value,
    PasswordComplexity,
};

verus! {

/// Validation of request data. Every finding is reported, not just the first.
pub trait Validation<T> {
    /// What validation reports of this request; nothing when it is accepted.
    spec fn findings(&self) -> Seq<DetailView>;

    /// Whether `v` is what this request yields once accepted.
    spec fn yields(&self, v: T) -> bool;

    fn validate(&self) -> (r: Result<T, Vec<APIResponseErrorDetail>>)
        ensures
            r is Ok <==> self.findings().len() == 0,
            r matches Ok(v) ==> self.yields(v),
            r matches Err(d) ==> details_view(d@) == self.findings(),
    ;
}

/// The finding `f` when `cond` holds; no finding otherwise.
pub open spec fn finding_if(cond: bool, f: DetailView) -> Seq<DetailView> {
    if cond {
        seq![f]
    } else {
        Seq::empty()
    }
}

/// A finding that `text` does not spell an account id.
pub open spec fn bad_id_finding(text: Seq<char>) -> DetailView {
    body_finding("id"@, "Invalid account ID format: "@ + text)
}

fn bad_id_detail(text: &str) -> (r: APIResponseErrorDetail)
    ensures
        r@ == bad_id_finding(text@),
{
    let mut msg = String::from_str("Invalid account ID format: ");
    msg.append(text);
    APIResponseErrorDetail::body("id", msg)
}

fn push_body_detail(details: &mut Vec<APIResponseErrorDetail>, field: &str, feedback: &str)
    ensures
        details_view(final(details)@) == details_view(old(details)@).push(
            body_finding(field@, feedback@),
        ),
{
    let ghost before = details@;
    details.push(APIResponseErrorDetail::body(field, String::from_str(feedback)));
    proof {
        assert(details_view(details@) =~= details_view(before).push(body_finding(field@, feedback@)));
    }
}

/// Asks for one account by its id.
#[derive(Debug)]
pub struct GetAccountQuery {
    pub account_id: String,
}

impl Validation<u128> for GetAccountQuery {
    open spec fn findings(&self) -> Seq<DetailView> {
        finding_if(self.account_id@.len() == 0, body_finding("id"@, "Account ID cannot be empty."@))
            + finding_if(uuid_text_value(self.account_id@) is None, bad_id_finding(self.account_id@))
    }

    open spec fn yields(&self, v: u128) -> bool {
        uuid_text_value(self.account_id@) == Some(v)
    }

    fn validate(&self) -> (r: Result<u128, Vec<APIResponseErrorDetail>>) {
        let mut details: Vec<APIResponseErrorDetail> = Vec::new();
        if self.account_id.as_str().is_empty() {
            push_body_detail(&mut details, "id", "Account ID cannot be empty.");
        }
        proof {
            assert(details_view(details@) =~= finding_if(
                self.account_id@.len() == 0,
                body_finding("id"@, "Account ID cannot be empty."@),
            ));
        }
        let text = self.account_id.as_str();
        match string_to_uuid(text) {
            Some(id) => {
                proof {
                    if self.account_id@.len() == 0 {
                        assert(vstd::utf8::encode_utf8(text@) =~= Seq::<u8>::empty());
                        assert(uuid_text_value(text@) is None);
                    }
                }
                Ok(id)
            },
            None => {
                let ghost before = details@;
                details.push(bad_id_detail(self.account_id.as_str()));
                proof {
                    assert(details_view(details@) =~= self.findings());
                }
                Err(details)
            },
        }
    }
}

/// The comma-separated pieces of `s` from index `i` on.
pub open spec fn segments_from(s: Seq<char>, i: int) -> Seq<Seq<char>>
    decreases s.len() - i,
{
    let c = comma_from(s, i);
    if i < 0 || i > s.len() || c < i || c >= s.len() {
        seq![s.subrange(i, s.len() as int)]
    } else {
        seq![s.subrange(i, c)] + segments_from(s, c + 1)
    }
}

/// The comma-separated pieces of `s`; one empty piece when `s` is empty.
pub open spec fn segments(s: Seq<char>) -> Seq<Seq<char>> {
    segments_from(s, 0)
}

/// The findings for the pieces that spell no id, in order.
pub open spec fn bad_id_findings(parts: Seq<Seq<char>>) -> Seq<DetailView>
    decreases parts.len(),
{
    if parts.len() == 0 {
        Seq::empty()
    } else {
        finding_if(uuid_text_value(parts[0]) is None, bad_id_finding(parts[0])) + bad_id_findings(
            parts.drop_first(),
        )
    }
}

/// The ids that the pieces spell, in order.
pub open spec fn parsed_ids(parts: Seq<Seq<char>>) -> Seq<u128>
    decreases parts.len(),
{
    if parts.len() == 0 {
        Seq::empty()
    } else {
        (if uuid_text_value(parts[0]) is Some {
            seq![uuid_text_value(parts[0])->0]
        } else {
            Seq::empty()
        }) + parsed_ids(parts.drop_first())
    }
}

/// The most accounts that one query may ask for.
pub const MAX_ACCOUNTS_PER_QUERY: usize = 10;

/// Asks for several accounts by a comma-separated list of ids.
#[derive(Debug)]
pub struct GetAccountsQuery {
    pub accounts_id: String,
}

impl Validation<Vec<u128>> for GetAccountsQuery {
    open spec fn findings(&self) -> Seq<DetailView> {
        let s = self.accounts_id@;
        let ids = parsed_ids(segments(s));
        finding_if(s.len() == 0, body_finding("id"@, "Account ID cannot be empty."@))
            + bad_id_findings(segments(s)) + finding_if(
            ids.len() == 0,
            body_finding("id"@, "At least one account ID must be provided."@),
        ) + finding_if(
            ids.len() > MAX_ACCOUNTS_PER_QUERY,
            body_finding("id"@, "Cannot retrieve more than 10 accounts at once."@),
        )
    }

    open spec fn yields(&self, v: Vec<u128>) -> bool {
        v@ == parsed_ids(segments(self.accounts_id@))
    }

    fn validate(&self) -> (r: Result<Vec<u128>, Vec<APIResponseErrorDetail>>) {
        let s = self.accounts_id.as_str();
        let ghost sv = s@;
        let mut details: Vec<APIResponseErrorDetail> = Vec::new();
        if s.is_empty() {
            push_body_detail(&mut details, "id", "Account ID cannot be empty.");
        }
        let ghost head = details_view(details@);
        let n = s.unicode_len();
        let mut ids: Vec<u128> = Vec::new();
        let mut i: usize = 0;
        let mut more = true;
        while more
            invariant
                n == sv.len(),
                s@ == sv,
                0 <= i <= n,
                more ==> details_view(details@) + bad_id_findings(segments_from(sv, i as int)) == head
                    + bad_id_findings(segments(sv)),
                more ==> ids@ + parsed_ids(segments_from(sv, i as int)) == parsed_ids(segments(sv)),
                !more ==> details_view(details@) == head + bad_id_findings(segments(sv)),
                !more ==> ids@ == parsed_ids(segments(sv)),
            decreases n + 1 - i + (if more { 1int } else { 0int }),
        {
            let mut c: usize = i;
            while c < n && s.get_char(c) != ','
                invariant
                    n == sv.len(),
                    s@ == sv,
                    i <= c <= n,
                    comma_from(sv, c as int) == comma_from(sv, i as int),
                decreases n - c,
            {
                c = c + 1;
            }
            let part = s.substring_char(i, c);
            let ghost rest = segments_from(sv, i as int);
            proof {
                assert(comma_from(sv, c as int) == c);
                assert(rest[0] == part@);
                if c < n {
                    assert(rest == seq![part@] + segments_from(sv, c + 1));
                    assert(rest.drop_first() =~= segments_from(sv, c + 1));
                } else {
                    assert(rest.drop_first() =~= Seq::<Seq<char>>::empty());
                }
            }
            let ghost d0 = details_view(details@);
            let ghost i0 = ids@;
            match string_to_uuid(part) {
                Some(id) => {
                    ids.push(id);
                    proof {
                        assert(d0 + bad_id_findings(rest) =~= d0 + bad_id_findings(rest.drop_first()));
                        assert(i0 + parsed_ids(rest) =~= ids@ + parsed_ids(rest.drop_first()));
                    }
                },
                None => {
                    details.push(bad_id_detail(part));
                    proof {
                        assert(details_view(details@) =~= d0.push(bad_id_finding(part@)));
                        assert(d0 + bad_id_findings(rest) =~= details_view(details@) + bad_id_findings(
                            rest.drop_first(),
                        ));
                        assert(i0 + parsed_ids(rest) =~= ids@ + parsed_ids(rest.drop_first()));
                    }
                },
            }
            if c >= n {
                more = false;
                proof {
                    assert(bad_id_findings(Seq::<Seq<char>>::empty()) =~= Seq::<DetailView>::empty());
                    assert(details_view(details@) =~= details_view(details@) + bad_id_findings(
                        rest.drop_first(),
                    ));
                    assert(ids@ =~= ids@ + parsed_ids(rest.drop_first()));
                }
            } else {
                i = c + 1;
            }
        }
        let ghost mid = details_view(details@);
        if ids.len() == 0 {
            push_body_detail(&mut details, "id", "At least one account ID must be provided.");
        }
        let ghost mid2 = details_view(details@);
        if ids.len() > MAX_ACCOUNTS_PER_QUERY {
            push_body_detail(&mut details, "id", "Cannot retrieve more than 10 accounts at once.");
        }
        proof {
            assert(details_view(details@) =~= self.findings());
        }
        if details.len() > 0 {
            return Err(details);
        }
        Ok(ids)
    }
}

/// Adds an e-mail address to an existing account.
#[derive(Debug)]
pub struct AddEmailRequest {
    pub email: String,
    /// Whether the address becomes the primary one; no when omitted.
    pub set_as_primary: Option<bool>,
}

impl Validation<()> for AddEmailRequest {
    open spec fn findings(&self) -> Seq<DetailView> {
        finding_if(!email_shape(self.email@), body_finding("email"@, "Must be a valid email address."@))
    }

    open spec fn yields(&self, v: ()) -> bool {
        true
    }

    fn validate(&self) -> (r: Result<(), Vec<APIResponseErrorDetail>>) {
        if !is_valid_email(self.email.as_str()) {
            let mut details: Vec<APIResponseErrorDetail> = Vec::new();
            push_body_detail(&mut details, "email", "Must be a valid email address.");
            return Err(details);
        }
        Ok(())
    }
}

/// Asks for a token with an e-mail address and a password.
#[derive(Debug)]
pub struct ObtainTokenRequest {
    pub email: String,
    pub password: String,
}

impl Validation<()> for ObtainTokenRequest {
    open spec fn findings(&self) -> Seq<DetailView> {
        finding_if(!email_shape(self.email@), body_finding("email"@, "Must be a valid email address."@))
            + finding_if(
            !password_meets(
                self.password@,
                byte_len(self.password@),
                PasswordComplexity::Normal,
            ),
            body_finding("password"@, "Password does not meet complexity requirements."@),
        )
    }

    open spec fn yields(&self, v: ()) -> bool {
        true
    }

    fn validate(&self) -> (r: Result<(), Vec<APIResponseErrorDetail>>) {
        let mut details: Vec<APIResponseErrorDetail> = Vec::new();
        if !is_valid_email(self.email.as_str()) {
            push_body_detail(&mut details, "email", "Must be a valid email address.");
        }
        let ghost d1 = details_view(details@);
        if !meets_password_complexity(self.password.as_str(), PasswordComplexity::Normal) {
            push_body_detail(
                &mut details,
                "password",
                "Password does not meet complexity requirements.",
            );
        }
        proof {
            assert(details_view(details@) =~= self.findings());
        }
        if details.len() > 0 {
            return Err(details);
        }
        Ok(())
    }
}

/// Registers a new account with an e-mail address and a password.
#[derive(Debug)]
pub struct AccountCreateRequest {
    pub email: String,
    pub password: String,
    /// Must match `password`.
    pub password_confirmation: String,
    /// Display name, if any.
    pub name: Option<String>,
    /// ISO 3166-1 alpha-2 country code.
    pub country_code_id: String,
}

impl Validation<()> for AccountCreateRequest {
    open spec fn findings(&self) -> Seq<DetailView> {
        finding_if(!email_shape(self.email@), body_finding("email"@, "Must be a valid email address."@))
            + finding_if(
            !password_meets(self.password@, byte_len(self.password@), PasswordComplexity::Normal),
            body_finding("password"@, "Password doesn't meet password complexity"@),
        ) + finding_if(
            self.password@ != self.password_confirmation@,
            body_finding("password_confirmation"@, "Password confirmation does not match."@),
        ) + match self.name {
            Some(n) => if all_white_space(n@) {
                seq![body_finding("name"@, "Name cannot be empty."@)]
            } else {
                finding_if(
                    byte_len(n@) > 50,
                    body_finding("name"@, "Name must be at most 50 characters long."@),
                )
            },
            None => Seq::empty(),
        } + finding_if(
            !country_code_shape(self.country_code_id@),
            body_finding(
                "country_code"@,
                "Country code must be exactly 2 uppercase alphabetic characters."@,
            ),
        )
    }

    open spec fn yields(&self, v: ()) -> bool {
        true
    }

    fn validate(&self) -> (r: Result<(), Vec<APIResponseErrorDetail>>) {
        let mut details: Vec<APIResponseErrorDetail> = Vec::new();
        if !is_valid_email(self.email.as_str()) {
            push_body_detail(&mut details, "email", "Must be a valid email address.");
        }
        let ghost d1 = details_view(details@);
        if !meets_password_complexity(self.password.as_str(), PasswordComplexity::Normal) {
            push_body_detail(&mut details, "password", "Password doesn't meet password complexity");
        }
        let ghost d2 = details_view(details@);
        if !(self.password == self.password_confirmation) {
            push_body_detail(
                &mut details,
                "password_confirmation",
                "Password confirmation does not match.",
            );
        }
        let ghost d3 = details_view(details@);
        if let Some(name) = &self.name {
            if is_blank(name.as_str()) {
                push_body_detail(&mut details, "name", "Name cannot be empty.");
            } else if name.as_str().len() > 50 {
                push_body_detail(&mut details, "name", "Name must be at most 50 characters long.");
            }
        }
        let ghost d4 = details_view(details@);
        if !is_valid_country_code(self.country_code_id.as_str()) {
            push_body_detail(
                &mut details,
                "country_code",
                "Country code must be exactly 2 uppercase alphabetic characters.",
            );
        }
        proof {
            assert(details_view(details@) =~= self.findings());
        }
        if details.len() > 0 {
            return Err(details);
        }
        Ok(())
    }
}

/// Changes an account; fields left out stay as they are.
#[derive(Debug)]
pub struct AccountUpdateRequest {
    /// The account's id.
    pub id: String,
    /// New display name: `Some(None)` clears it, `None` keeps it.
    pub name: Option<Option<String>>,
    /// The id of the new country.
    pub country_code: Option<String>,
    pub password: Option<String>,
    pub password_confirmation: Option<String>,
}

/// The id that an optional text spells: none when the text is absent or
/// spells none.
pub open spec fn optional_id(text: Option<String>) -> Option<u128> {
    match text {
        Some(t) => uuid_text_value(t@),
        None => None,
    }
}

/// What a password change reports: a password that is too weak, and a
/// confirmation that is missing or differs.
pub open spec fn password_change_findings(
    password: Option<String>,
    confirmation: Option<String>,
) -> Seq<DetailView> {
    match password {
        Some(p) => finding_if(
            !password_meets(p@, byte_len(p@), PasswordComplexity::Normal),
            body_finding("password"@, "Password does not meet complexity requirements."@),
        ) + match confirmation {
            Some(c) => finding_if(
                p@ != c@,
                body_finding("password_confirmation"@, "Password confirmation does not match."@),
            ),
            None => seq![
                body_finding("password_confirmation"@, "Password confirmation is required."@),
            ],
        },
        None => Seq::empty(),
    }
}

fn check_password_change(
    password: &Option<String>,
    confirmation: &Option<String>,
    details: &mut Vec<APIResponseErrorDetail>,
)
    ensures
        details_view(final(details)@) == details_view(old(details)@) + password_change_findings(
            *password,
            *confirmation,
        ),
{
    let ghost d0 = details_view(details@);
    if let Some(password) = password {
        if !meets_password_complexity(password.as_str(), PasswordComplexity::Normal) {
            push_body_detail(details, "password", "Password does not meet complexity requirements.");
        }
        let ghost d1 = details_view(details@);
        if let Some(c) = confirmation {
            if !password.eq(c) {
                push_body_detail(
                    details,
                    "password_confirmation",
                    "Password confirmation does not match.",
                );
            }
        } else {
            push_body_detail(details, "password_confirmation", "Password confirmation is required.");
        }
    }
    proof {
        assert(details_view(details@) =~= d0 + password_change_findings(*password, *confirmation));
    }
}

/// What a new name reports: a blank name or one over fifty bytes.
pub open spec fn new_name_findings(name: Option<Option<String>>) -> Seq<DetailView> {
    match name {
        Some(Some(n)) => finding_if(
            !(!all_white_space(n@) && byte_len(n@) <= 50),
            body_finding("name"@, "Name must be at most 50 characters long."@),
        ),
        _ => Seq::empty(),
    }
}

/// What a new country reports: text that spells no id.
pub open spec fn new_country_findings(country_code: Option<String>) -> Seq<DetailView> {
    match country_code {
        Some(c) => finding_if(
            uuid_text_value(c@) is None,
            body_finding("country_code"@, "Country code must be an id."@),
        ),
        None => Seq::empty(),
    }
}

impl Validation<(u128, Option<u128>)> for AccountUpdateRequest {
    open spec fn findings(&self) -> Seq<DetailView> {
        finding_if(
            uuid_text_value(self.id@) is None,
            body_finding("id"@, "Must be a valid UUID."@),
        ) + new_name_findings(self.name) + new_country_findings(self.country_code)
            + password_change_findings(self.password, self.password_confirmation)
    }

    open spec fn yields(&self, v: (u128, Option<u128>)) -> bool {
        uuid_text_value(self.id@) == Some(v.0) && v.1 == optional_id(self.country_code)
    }

    fn validate(&self) -> (r: Result<(u128, Option<u128>), Vec<APIResponseErrorDetail>>) {
        let mut details: Vec<APIResponseErrorDetail> = Vec::new();
        let id = string_to_uuid(self.id.as_str());
        if id.is_none() {
            push_body_detail(&mut details, "id", "Must be a valid UUID.");
        }
        let ghost d1 = details_view(details@);
        if let Some(Some(name)) = &self.name {
            if !is_valid_name(name.as_str()) {
                push_body_detail(&mut details, "name", "Name must be at most 50 characters long.");
            }
        }
        let ghost d2 = details_view(details@);
        let mut country_code_id: Option<u128> = None;
        if let Some(country_code) = &self.country_code {
            match string_to_uuid(country_code.as_str()) {
                Some(u) => {
                    country_code_id = Some(u);
                },
                None => {
                    push_body_detail(&mut details, "country_code", "Country code must be an id.");
                },
            }
        }
        let ghost d3 = details_view(details@);
        proof {
            assert(d1 =~= finding_if(
                uuid_text_value(self.id@) is None,
                body_finding("id"@, "Must be a valid UUID."@),
            ));
            assert(d2 =~= d1 + new_name_findings(self.name));
            assert(d3 =~= d2 + new_country_findings(self.country_code));
        }
        check_password_change(&self.password, &self.password_confirmation, &mut details);
        proof {
            assert(details_view(details@) =~= self.findings());
        }
        if details.len() > 0 {
            return Err(details);
        }
        match id {
            Some(v) => Ok((v, country_code_id)),
            None => Err(details),
        }
    }
}

} // verus!
