//! Device tokens and the push provider each one belongs to.

use crate::text::{find_char, strip_prefix};
use vstd::prelude::*;
use vstd::string::StringExecFns;

verus! {

/// What a token for Firebase Cloud Messaging starts with.
pub open spec fn fcm_prefix() -> Seq<char> {
    seq!['f', 'c', 'm', '-']
}

/// What a token for the sandbox of the Apple Push Notification service
/// starts with.
pub open spec fn sandbox_prefix() -> Seq<char> {
    seq!['s', 'a', 'n', 'd', 'b', 'o', 'x', ':']
}

/// What an encrypted token starts with.
pub open spec fn encrypted_prefix() -> Seq<char> {
    seq!['o', 'p', 'e', 'n', 'p', 'g', 'p', ':']
}

/// A device token, by the provider that it is sent to.
#[derive(Debug, Clone, PartialEq, Eq)]
pub enum NotificationToken {
    /// Android App.
    Fcm {
        /// Package name such as `chat.delta`.
        package_name: String,
        /// Token.
        token: String,
    },
    /// APNS sandbox token.
    ApnsSandbox(String),
    /// APNS production token.
    ApnsProduction(String),
}

/// A device token as contracts see it: the provider, and the parts of the
/// token as sequences of characters.
pub enum Route {
    /// For FCM, with the package name and the token.
    Fcm { package_name: Seq<char>, token: Seq<char> },
    /// For the APNS sandbox.
    ApnsSandbox(Seq<char>),
    /// For APNS production.
    ApnsProduction(Seq<char>),
}

impl View for NotificationToken {
    type V = Route;

    open spec fn view(&self) -> Route {
        match self {
            NotificationToken::Fcm { package_name, token } => Route::Fcm {
                package_name: package_name@,
                token: token@,
            },
            NotificationToken::ApnsSandbox(token) => Route::ApnsSandbox(token@),
            NotificationToken::ApnsProduction(token) => Route::ApnsProduction(token@),
        }
    }
}

impl Route {
    /// Whether `self` is what `raw` stands for. A token `fcm-` package `:`
    /// token, the package name having no `:`, is for FCM; any other token
    /// `sandbox:` token is for the APNS sandbox; every other token is for
    /// APNS production, as it stands.
    pub open spec fn routes(self, raw: Seq<char>) -> bool {
        match self {
            Route::Fcm { package_name, token } => {
                &&& raw == fcm_prefix() + package_name + seq![':'] + token
                &&& !package_name.contains(':')
            },
            Route::ApnsSandbox(token) => {
                &&& !fcm_prefix().is_prefix_of(raw)
                &&& raw == sandbox_prefix() + token
            },
            Route::ApnsProduction(token) => {
                &&& !fcm_prefix().is_prefix_of(raw)
                &&& !sandbox_prefix().is_prefix_of(raw)
                &&& raw == token
            },
        }
    }
}

/// A token that starts as one for FCM and has no `:` between the package
/// name and the token.
#[derive(Debug, Clone, Copy, PartialEq, Eq)]
pub struct MalformedToken;

impl MalformedToken {
    /// The message that goes with the error.
    pub fn message(&self) -> (text: String)
        ensures
            text@ == "Invalid FCM token"@,
    {
        String::from_str("Invalid FCM token")
    }
}

/// Whether `raw` cannot be routed: it starts as a token for FCM and has no
/// `:` after that.
pub open spec fn malformed(raw: Seq<char>) -> bool {
    fcm_prefix().is_prefix_of(raw) && !raw.skip(4).contains(':')
}

impl NotificationToken {
    /// Tells which provider the token `s` is for.
    pub fn from_str(s: &str) -> (parsed: Result<NotificationToken, MalformedToken>)
        ensures
            parsed is Err <==> malformed(s@),
            parsed matches Ok(token) ==> token@.routes(s@),
    {
        proof {
            reveal_strlit("fcm-");
            reveal_strlit("sandbox:");
        }
        assert("fcm-"@ =~= fcm_prefix());
        assert("sandbox:"@ =~= sandbox_prefix());
        if let Some(rest) = strip_prefix(s, "fcm-") {
            assert(rest@ =~= s@.skip(4));
            match find_char(rest, ':') {
                Some(colon) => {
                    let n = rest.unicode_len();
                    let package_name = rest.substring_char(0, colon);
                    let token = rest.substring_char(colon + 1, n);
                    assert(package_name@ =~= rest@.take(colon as int));
                    assert(s@ =~= fcm_prefix() + package_name@ + seq![':'] + token@);
                    Ok(
                        NotificationToken::Fcm {
                            package_name: String::from_str(package_name),
                            token: String::from_str(token),
                        },
                    )
                },
                None => Err(MalformedToken),
            }
        } else if let Some(token) = strip_prefix(s, "sandbox:") {
            Ok(NotificationToken::ApnsSandbox(String::from_str(token)))
        } else {
            Ok(NotificationToken::ApnsProduction(String::from_str(s)))
        }
    }
}

/// A string stands for at most one token: the package name ends at the
/// first `:`.
pub proof fn lemma_routes_one(raw: Seq<char>, a: Route, b: Route)
    requires
        a.routes(raw),
        b.routes(raw),
    ensures
        a == b,
{
    match (a, b) {
        (
            Route::Fcm { package_name: pa, token: ta },
            Route::Fcm { package_name: pb, token: tb },
        ) => {
            let x = fcm_prefix() + pa + seq![':'] + ta;
            let y = fcm_prefix() + pb + seq![':'] + tb;
            let la = pa.len() as int;
            let lb = pb.len() as int;
            assert(x[4 + la] == ':');
            assert(y[4 + lb] == ':');
            if la < lb {
                assert(y[4 + la] == pb[la]);
            }
            if lb < la {
                assert(x[4 + lb] == pa[lb]);
            }
            assert(pa =~= x.subrange(4, 4 + la));
            assert(pb =~= y.subrange(4, 4 + lb));
            assert(ta =~= x.skip(5 + la));
            assert(tb =~= y.skip(5 + lb));
        },
        (Route::ApnsSandbox(ta), Route::ApnsSandbox(tb)) => {
            assert(ta =~= (sandbox_prefix() + ta).skip(8));
            assert(tb =~= (sandbox_prefix() + tb).skip(8));
        },
        (Route::ApnsProduction(ta), Route::ApnsProduction(tb)) => {},
        (Route::Fcm { package_name, token }, _) => {
            assert(raw.subrange(0, 4) =~= fcm_prefix());
        },
        (_, Route::Fcm { package_name, token }) => {
            assert(raw.subrange(0, 4) =~= fcm_prefix());
        },
        (Route::ApnsSandbox(t), _) => {
            assert(raw.subrange(0, 8) =~= sandbox_prefix());
        },
        (_, Route::ApnsSandbox(t)) => {
            assert(raw.subrange(0, 8) =~= sandbox_prefix());
        },
    }
}

/// A string that stands for a token is not malformed.
pub proof fn lemma_routed_is_well_formed(raw: Seq<char>, route: Route)
    requires
        route.routes(raw),
    ensures
        !malformed(raw),
{
    if let Route::Fcm { package_name, token } = route {
        let at = package_name.len() as int;
        assert(raw.skip(4)[at] == ':');
    }
}

} // verus!
