use vstd::prelude::*;
use crate::instant::{rfc3339_instant, parse_instant, classify, freshness_at, Freshness, Instant};
use crate::json::{
    JsonValue, JsonValueView, Member, object, object_text, text_field, text_members, lookup,
    members_view, parse_object, find_member, push_member, lemma_object_text,
};
use crate::text::{chars_of, string_of};

verus! {

/// An authenticated identity: its access and refresh tokens with their expiry
/// timestamps (RFC 3339 text), and a display label.
#[derive(Clone, Debug, PartialEq, Eq)]
pub struct Account {
    pub account_id: String,
    pub display_name: String,
    pub access_token: String,
    pub expires_at: String,
    pub refresh_token: String,
    pub refresh_expires_at: String,
}

/// Mathematical view of an [`Account`].
pub struct AccountView {
    pub account_id: Seq<char>,
    pub display_name: Seq<char>,
    pub access_token: Seq<char>,
    pub expires_at: Seq<char>,
    pub refresh_token: Seq<char>,
    pub refresh_expires_at: Seq<char>,
}

impl View for Account {
    type V = AccountView;

    open spec fn view(&self) -> AccountView {
        AccountView {
            account_id: self.account_id@,
            display_name: self.display_name@,
            access_token: self.access_token@,
            expires_at: self.expires_at@,
            refresh_token: self.refresh_token@,
            refresh_expires_at: self.refresh_expires_at@,
        }
    }
}

/// Stored or received data that is not a well-formed credential.
#[derive(Clone, Copy, Debug, PartialEq, Eq, Structural)]
pub struct MalformedCredential;

impl AccountView {
    /// Both expiry timestamps are well-formed.
    pub open spec fn is_valid(self) -> bool {
        rfc3339_instant(self.expires_at) is Some && rfc3339_instant(self.refresh_expires_at) is Some
    }

    pub open spec fn access_expiry(self) -> Instant {
        rfc3339_instant(self.expires_at)->0
    }

    pub open spec fn refresh_expiry(self) -> Instant {
        rfc3339_instant(self.refresh_expires_at)->0
    }

    /// The state of this credential at `now`.
    pub open spec fn freshness(self, now: Instant) -> Freshness {
        freshness_at(self.access_expiry(), self.refresh_expiry(), now)
    }
}

/// The members of the JSON form of a credential, under their external names.
pub open spec fn account_members(a: AccountView) -> Seq<(Seq<char>, Seq<char>)> {
    seq![
        ("accountId"@, a.account_id),
        ("displayName"@, a.display_name),
        ("access_token"@, a.access_token),
        ("expires_at"@, a.expires_at),
        ("refresh_token"@, a.refresh_token),
        ("refresh_expires_at"@, a.refresh_expires_at),
    ]
}

/// The JSON text of a credential.
pub open spec fn serialized_account(a: AccountView) -> Seq<char> {
    object_text(account_members(a))
}

/// The credential that a JSON object's members describe: every field present
/// as a string and both timestamps well-formed.
pub open spec fn account_from_members(ms: Seq<(Seq<char>, JsonValueView)>) -> Option<
    AccountView,
> {
    let id = text_field(ms, "accountId"@);
    let name = text_field(ms, "displayName"@);
    let access = text_field(ms, "access_token"@);
    let exp = text_field(ms, "expires_at"@);
    let refresh = text_field(ms, "refresh_token"@);
    let rexp = text_field(ms, "refresh_expires_at"@);
    if id is Some && name is Some && access is Some && exp is Some && refresh is Some
        && rexp is Some {
        let a = AccountView {
            account_id: id->0,
            display_name: name->0,
            access_token: access->0,
            expires_at: exp->0,
            refresh_token: refresh->0,
            refresh_expires_at: rexp->0,
        };
        if a.is_valid() {
            Some(a)
        } else {
            None
        }
    } else {
        None
    }
}

/// The credential that JSON text `s` holds, if it holds one.
pub open spec fn deserialized_account(s: Seq<char>) -> Option<AccountView> {
    match object(s) {
        Some(ms) => account_from_members(ms),
        None => None,
    }
}

fn text_member(ms: &Vec<Member>, key: &str) -> (r: Option<String>)
    ensures
        match r {
            Some(t) => text_field(members_view(ms@), key@) == Some(t@),
            None => text_field(members_view(ms@), key@) is None,
        },
{
    let k = chars_of(key);
    match find_member(ms, &k) {
        Some(JsonValue::Text(t)) => Some(string_of(&t)),
        _ => None,
    }
}

impl Account {
    /// Writes this credential as JSON text under its external field names.
    #[verifier::rlimit(60)]
    pub fn to_json(&self) -> (r: String)
        ensures
            r@ == serialized_account(self@),
    {
        let mut out: Vec<char> = Vec::new();
        out.push('{');
        push_member(&mut out, &chars_of("accountId"), &chars_of(self.account_id.as_str()), ',');
        push_member(&mut out, &chars_of("displayName"), &chars_of(self.display_name.as_str()), ',');
        push_member(&mut out, &chars_of("access_token"), &chars_of(self.access_token.as_str()), ',');
        push_member(&mut out, &chars_of("expires_at"), &chars_of(self.expires_at.as_str()), ',');
        push_member(&mut out, &chars_of("refresh_token"), &chars_of(self.refresh_token.as_str()), ',');
        push_member(
            &mut out,
            &chars_of("refresh_expires_at"),
            &chars_of(self.refresh_expires_at.as_str()),
            '}',
        );
        proof {
            reveal_with_fuel(crate::json::members_text, 7);
            assert(out@ =~= serialized_account(self@));
        }
        string_of(&out)
    }

    /// Reads a credential from JSON text; extra members are ignored.
    pub fn from_json(text: &str) -> (r: Result<Account, MalformedCredential>)
        ensures
            match r {
                Ok(a) => deserialized_account(text@) == Some(a@),
                Err(_) => deserialized_account(text@) is None,
            },
    {
        let chars = chars_of(text);
        let ms = match parse_object(&chars) {
            Some(ms) => ms,
            None => {
                return Err(MalformedCredential);
            },
        };
        let id = text_member(&ms, "accountId");
        let name = text_member(&ms, "displayName");
        let access = text_member(&ms, "access_token");
        let exp = text_member(&ms, "expires_at");
        let refresh = text_member(&ms, "refresh_token");
        let rexp = text_member(&ms, "refresh_expires_at");
        match (id, name, access, exp, refresh, rexp) {
            (Some(id), Some(name), Some(access), Some(exp), Some(refresh), Some(rexp)) => {
                let a = Account {
                    account_id: id,
                    display_name: name,
                    access_token: access,
                    expires_at: exp,
                    refresh_token: refresh,
                    refresh_expires_at: rexp,
                };
                if parse_instant(a.expires_at.as_str()).is_some() && parse_instant(
                    a.refresh_expires_at.as_str(),
                ).is_some() {
                    Ok(a)
                } else {
                    Err(MalformedCredential)
                }
            },
            _ => Err(MalformedCredential),
        }
    }

    /// The state of this credential at `now`.
    pub fn freshness(&self, now: Instant) -> (r: Freshness)
        requires
            self@.is_valid(),
        ensures
            r == self@.freshness(now),
    {
        let access = parse_instant(self.expires_at.as_str());
        let refresh = parse_instant(self.refresh_expires_at.as_str());
        match (access, refresh) {
            (Some(a), Some(b)) => classify(a, b, now),
            _ => Freshness::Dead,
        }
    }
}

/// Reading back the JSON text of a credential with well-formed timestamps
/// gives the same credential.
pub proof fn lemma_account_round_trip(a: AccountView)
    requires
        a.is_valid(),
    ensures
        deserialized_account(serialized_account(a)) == Some(a),
{
    let fields = account_members(a);
    lemma_object_text(fields);
    let ms = text_members(fields);
    reveal_strlit("accountId");
    reveal_strlit("displayName");
    reveal_strlit("access_token");
    reveal_strlit("expires_at");
    reveal_strlit("refresh_token");
    reveal_strlit("refresh_expires_at");
    reveal_with_fuel(lookup, 7);
    assert(ms[0].0 == "accountId"@);
    assert(ms[1].0 == "displayName"@);
    assert(ms[2].0 == "access_token"@);
    assert(ms[3].0 == "expires_at"@);
    assert("access_token"@.len() != "accountId"@.len());
    assert("access_token"@.len() != "displayName"@.len());
    assert("expires_at"@.len() != "accountId"@.len());
    assert("expires_at"@.len() != "displayName"@.len());
    assert("expires_at"@.len() != "access_token"@.len());
    assert(ms.drop_first().drop_first()[0] == ms[2]);
    assert(ms.drop_first().drop_first().drop_first()[0] == ms[3]);
    assert(ms[4].0 == "refresh_token"@);
    assert(ms[5].0 == "refresh_expires_at"@);
    assert(ms.drop_first().drop_first().drop_first().drop_first()[0] == ms[4]);
    assert(ms.drop_first().drop_first().drop_first().drop_first().drop_first()[0] == ms[5]);
    assert("refresh_expires_at"@.len() == 18);
    assert("refresh_token"@.len() == 13);
    assert(text_field(ms, "accountId"@) == Some(a.account_id));
    assert(text_field(ms, "displayName"@) == Some(a.display_name));
    assert(text_field(ms, "access_token"@) == Some(a.access_token));
    assert(text_field(ms, "expires_at"@) == Some(a.expires_at));
    assert(text_field(ms, "refresh_token"@) == Some(a.refresh_token));
    assert(text_field(ms, "refresh_expires_at"@) == Some(a.refresh_expires_at));
}

} // verus!
