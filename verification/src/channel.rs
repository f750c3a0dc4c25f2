//! The channel: where it talks to, and whom it listens to.
use crate::relation::lists;
use crate::text::{
    law_trimming_an_end_takes_only_the_run, opt_text, same_text, str_view, trim_end_of,
    trimmed_end_of,
};
use vstd::prelude::*;

verus! {

/// Nextcloud Talk channel in webhook mode.
///
/// Incoming webhooks are turned into messages; outgoing messages and reactions are
/// turned into HTTP requests. With a bot secret these go to the Talk bot API, signed
/// with HMAC-SHA256; without one, messages go to the chat endpoint with bearer
/// authentication.
pub struct NextcloudTalkChannel {
    base_url: String,
    app_token: String,
    bot_secret: Option<String>,
    allowed_users: Vec<String>,
}

/// The mathematical value of a `NextcloudTalkChannel`.
pub struct ChannelState {
    pub base_url: Seq<char>,
    pub app_token: Seq<char>,
    pub bot_secret: Option<Seq<char>>,
    pub allowed_users: Seq<Seq<char>>,
}

/// The name of the channel.
pub open spec fn channel_name() -> Seq<char> {
    "nextcloud_talk"@
}

/// `actor` may talk to the channel: it is listed, or `*` is.
pub open spec fn user_allowed(allowed_users: Seq<Seq<char>>, actor: Seq<char>) -> bool {
    allowed_users.contains("*"@) || allowed_users.contains(actor)
}

impl View for NextcloudTalkChannel {
    type V = ChannelState;

    closed spec fn view(&self) -> ChannelState {
        ChannelState {
            base_url: self.base_url@,
            app_token: self.app_token@,
            bot_secret: opt_text(self.bot_secret),
            allowed_users: self.allowed_users@.map_values(|user: String| user@),
        }
    }
}

impl NextcloudTalkChannel {
    /// The base URL does not end with a slash.
    #[verifier::type_invariant]
    spec fn well_formed(self) -> bool {
        self.base_url@.len() > 0 ==> self.base_url@.last() != '/'
    }

    /// A channel to the Nextcloud instance at `base_url`; slashes at its end are dropped.
    pub fn new(
        base_url: String,
        app_token: String,
        bot_secret: Option<String>,
        allowed_users: Vec<String>,
    ) -> (channel: Self)
        ensures
            channel@ == (ChannelState {
                base_url: trimmed_end_of(base_url@, '/'),
                app_token: app_token@,
                bot_secret: opt_text(bot_secret),
                allowed_users: allowed_users@.map_values(|user: String| user@),
            }),
    {
        proof {
            lemma_trimmed_end_of_clean(base_url@, '/');
        }
        let base_url = trim_end_of(base_url.as_str(), '/').to_owned();
        NextcloudTalkChannel { base_url, app_token, bot_secret, allowed_users }
    }

    /// The name of the channel.
    pub fn name(&self) -> (name: &str)
        ensures
            name@ == channel_name(),
    {
        "nextcloud_talk"
    }

    /// The base URL, which does not end with a slash.
    pub fn base_url(&self) -> (url: &str)
        ensures
            url@ == self@.base_url,
            url@.len() > 0 ==> url@.last() != '/',
    {
        proof {
            use_type_invariant(self);
        }
        self.base_url.as_str()
    }

    /// The token for bearer authentication.
    pub fn app_token(&self) -> (token: &str)
        ensures
            token@ == self@.app_token,
    {
        self.app_token.as_str()
    }

    /// The secret for signing bot requests, where one is configured.
    pub fn bot_secret(&self) -> (secret: Option<&str>)
        ensures
            str_view(secret) == self@.bot_secret,
    {
        match &self.bot_secret {
            Some(secret) => Some(secret.as_str()),
            None => None,
        }
    }

    /// Whether `actor_id` is on the list of allowed users, or `*` is.
    pub fn is_user_allowed(&self, actor_id: &str) -> (allowed: bool)
        ensures
            allowed == user_allowed(self@.allowed_users, actor_id@),
            allowed <==> lists(self@.allowed_users, actor_id@),
    {
        proof {
            law_allowed_means_listed(self@.allowed_users, actor_id@);
        }
        let ghost users = self@.allowed_users;
        let mut i: usize = 0;
        while i < self.allowed_users.len()
            invariant
                i <= self.allowed_users.len(),
                users == self.allowed_users@.map_values(|user: String| user@),
                users == self@.allowed_users,
                forall|j: int| 0 <= j < i ==> users[j] != "*"@ && users[j] != actor_id@,
            decreases self.allowed_users.len() - i,
        {
            let user = self.allowed_users[i].as_str();
            assert(users[i as int] == user@);
            if same_text(user, "*") || same_text(user, actor_id) {
                assert(users.contains(user@));
                return true;
            }
            i = i + 1;
        }
        false
    }
}

proof fn lemma_trimmed_end_of_clean(s: Seq<char>, c: char)
    ensures
        trimmed_end_of(s, c).len() > 0 ==> trimmed_end_of(s, c).last() != c,
    decreases s.len(),
{
    if s.len() > 0 && s.last() == c {
        lemma_trimmed_end_of_clean(s.drop_last(), c);
    }
}

/// A base URL means the same with any number of slashes at its end.
pub proof fn law_trailing_slashes_do_not_count(base_url: Seq<char>, slashes: Seq<char>)
    requires
        forall|i: int| 0 <= i < slashes.len() ==> slashes[i] == '/',
    ensures
        trimmed_end_of(base_url + slashes, '/') == trimmed_end_of(base_url, '/'),
    decreases slashes.len(),
{
    if slashes.len() == 0 {
        assert(base_url + slashes =~= base_url);
    } else {
        law_trailing_slashes_do_not_count(base_url, slashes.drop_last());
        assert((base_url + slashes).drop_last() =~= base_url + slashes.drop_last());
    }
}

/// `*` on the list admits everybody; an empty list admits nobody.
pub proof fn law_wildcard_and_empty_list(allowed_users: Seq<Seq<char>>, actor: Seq<char>)
    ensures
        allowed_users.contains("*"@) ==> user_allowed(allowed_users, actor),
        allowed_users.len() == 0 ==> !user_allowed(allowed_users, actor),
{
}

/// Every entry of the list counts, whatever its position: an actor is allowed exactly where
/// some entry is the actor or `*`, for the very list that the channel was made with.
pub proof fn law_every_entry_counts(
    base_url: String,
    app_token: String,
    bot_secret: Option<String>,
    users: Vec<String>,
    channel: NextcloudTalkChannel,
    actor: &str,
    allowed: bool,
)
    requires
        call_ensures(NextcloudTalkChannel::new, (base_url, app_token, bot_secret, users), channel),
        call_ensures(NextcloudTalkChannel::is_user_allowed, (&channel, actor), allowed),
    ensures
        allowed <==> exists|i: int|
            0 <= i < users.len() && (#[trigger] users[i]@ == actor@ || users[i]@ == "*"@),
{
    let list = channel@.allowed_users;
    assert(forall|i: int| 0 <= i < users.len() ==> list[i] == #[trigger] users[i]@);
    if allowed {
        let entry = if list.contains("*"@) { "*"@ } else { actor@ };
        let i = choose|i: int| 0 <= i < list.len() && list[i] == entry;
        assert(users[i]@ == entry);
    }
    if exists|i: int|
        0 <= i < users.len() && (#[trigger] users[i]@ == actor@ || users[i]@ == "*"@) {
        let i = choose|i: int|
            0 <= i < users.len() && (#[trigger] users[i]@ == actor@ || users[i]@ == "*"@);
        assert(list.contains(list[i]));
    }
}

/// The actor at any index of the list is allowed; one that equals no entry is allowed only
/// where some entry is `*`.
pub proof fn law_listed_actors_are_allowed(
    channel: &NextcloudTalkChannel,
    i: int,
    actor: &str,
    allowed: bool,
)
    requires
        0 <= i < channel@.allowed_users.len(),
        call_ensures(NextcloudTalkChannel::is_user_allowed, (channel, actor), allowed),
    ensures
        channel@.allowed_users[i] == actor@ ==> allowed,
        channel@.allowed_users[i] == "*"@ ==> allowed,
        allowed && (forall|j: int|
            0 <= j < channel@.allowed_users.len() ==> #[trigger] channel@.allowed_users[j]
                != actor@) ==> exists|j: int|
            0 <= j < channel@.allowed_users.len() && #[trigger] channel@.allowed_users[j] == "*"@,
{
    law_allowed_means_listed(channel@.allowed_users, actor@);
    assert(channel@.allowed_users.contains(channel@.allowed_users[i]));
}

/// An actor is allowed exactly where the list lists it, at whatever index.
pub proof fn law_allowed_means_listed(users: Seq<Seq<char>>, actor: Seq<char>)
    ensures
        user_allowed(users, actor) <==> lists(users, actor),
{
    if lists(users, actor) {
        let i = choose|i: int|
            0 <= i < users.len() && (#[trigger] users[i] == actor || users[i] == "*"@);
        assert(users.contains(users[i]));
    }
}

/// The order of the list makes no difference, nor does the number of times that an entry
/// stands in it: lists with the same entries allow the same actors.
pub proof fn law_order_does_not_count(
    users: Seq<Seq<char>>,
    others: Seq<Seq<char>>,
    actor: Seq<char>,
)
    requires
        forall|user: Seq<char>| users.contains(user) <==> others.contains(user),
    ensures
        user_allowed(users, actor) == user_allowed(others, actor),
{
}

/// Two lists one after the other allow whom either of them allows.
pub proof fn law_longer_lists_allow_more(
    users: Seq<Seq<char>>,
    others: Seq<Seq<char>>,
    actor: Seq<char>,
)
    ensures
        user_allowed(users + others, actor) == (user_allowed(users, actor) || user_allowed(
            others,
            actor,
        )),
{
    let both = users + others;
    law_allowed_means_listed(users, actor);
    law_allowed_means_listed(others, actor);
    law_allowed_means_listed(both, actor);
    assert forall|i: int| 0 <= i < users.len() implies #[trigger] users[i] == both[i] by {}
    assert forall|i: int| 0 <= i < others.len() implies #[trigger] others[i] == both[i
        + users.len()] by {}
    if lists(both, actor) {
        let i = choose|i: int|
            0 <= i < both.len() && (#[trigger] both[i] == actor || both[i] == "*"@);
        if i < users.len() {
            assert(both[i] == users[i]);
        } else {
            assert(both[i] == others[i - users.len()]);
        }
    }
}

/// A channel keeps what it was made with: the token, the secret and the list as they are, and
/// the base URL but for slashes at its end, of which none is left.
pub proof fn law_channels_keep_their_configuration(
    base_url: String,
    app_token: String,
    bot_secret: Option<String>,
    users: Vec<String>,
    channel: NextcloudTalkChannel,
    url: &str,
    token: &str,
    secret: Option<&str>,
    name: &str,
)
    requires
        call_ensures(NextcloudTalkChannel::new, (base_url, app_token, bot_secret, users), channel),
        call_ensures(NextcloudTalkChannel::base_url, (&channel,), url),
        call_ensures(NextcloudTalkChannel::app_token, (&channel,), token),
        call_ensures(NextcloudTalkChannel::bot_secret, (&channel,), secret),
        call_ensures(NextcloudTalkChannel::name, (&channel,), name),
    ensures
        url@ == channel@.base_url,
        url@.is_prefix_of(base_url@),
        forall|i: int| url@.len() <= i < base_url@.len() ==> #[trigger] base_url@[i] == '/',
        url@.len() > 0 ==> url@.last() != '/',
        token@ == app_token@ && token@ == channel@.app_token,
        match bot_secret {
            Some(given) => secret is Some && secret->0@ == given@ && channel@.bot_secret == Some(
                given@,
            ),
            None => secret is None && channel@.bot_secret is None,
        },
        channel@.allowed_users.len() == users.len(),
        forall|i: int| 0 <= i < users.len() ==> channel@.allowed_users[i] == #[trigger] users[i]@,
        name@ == "nextcloud_talk"@,
{
    law_trimming_an_end_takes_only_the_run(base_url@, '/');
}

} // verus!
