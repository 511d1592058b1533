//! Restore tokens, by which the portal repeats a grant without asking the user.
use crate::outside::{distinct_keys, json_text_map, map_of, parse_text_map, write_text_map};
use vstd::prelude::*;

verus! {

/// The options that outlive the process.
///
/// `restore_token` holds the one token of desktops whose portal grants all monitors at once.
/// `restore_tokens` holds a JSON object from monitor names to tokens, because Hyprland's portal
/// grants one monitor at a time. `display_offset` holds the cache of stream positions.
#[derive(Debug)]
pub struct LocalOptions {
    pub restore_token: String,
    pub restore_tokens: String,
    pub display_offset: String,
}

/// Options as mathematical values.
pub ghost struct OptionsView {
    pub restore_token: Seq<char>,
    pub restore_tokens: Seq<char>,
    pub display_offset: Seq<char>,
}

impl View for LocalOptions {
    type V = OptionsView;

    open spec fn view(&self) -> OptionsView {
        OptionsView {
            restore_token: self.restore_token@,
            restore_tokens: self.restore_tokens@,
            display_offset: self.display_offset@,
        }
    }
}

/// Tokens by monitor.
#[derive(Debug)]
pub struct TokenMap {
    pairs: Vec<(String, String)>,
}

impl View for TokenMap {
    type V = Map<Seq<char>, Seq<char>>;

    closed spec fn view(&self) -> Map<Seq<char>, Seq<char>> {
        map_of(self.pairs@)
    }
}

proof fn lemma_map_of(pairs: Seq<(String, String)>, i: int)
    requires
        distinct_keys(pairs),
        0 <= i < pairs.len(),
    ensures
        map_of(pairs).contains_key(pairs[i].0@),
        map_of(pairs)[pairs[i].0@] == pairs[i].1@,
    decreases pairs.len(),
{
    if i < pairs.len() - 1 {
        assert(distinct_keys(pairs.drop_last()));
        lemma_map_of(pairs.drop_last(), i);
        assert(pairs.drop_last()[i] == pairs[i]);
    }
}

proof fn lemma_map_of_absent(pairs: Seq<(String, String)>, key: Seq<char>)
    requires
        forall|i: int| 0 <= i < pairs.len() ==> (#[trigger] pairs[i]).0@ != key,
    ensures
        !map_of(pairs).contains_key(key),
    decreases pairs.len(),
{
    if pairs.len() > 0 {
        lemma_map_of_absent(pairs.drop_last(), key);
    }
}

proof fn lemma_map_of_update(pairs: Seq<(String, String)>, i: int, value: (String, String))
    requires
        distinct_keys(pairs),
        0 <= i < pairs.len(),
        value.0@ == pairs[i].0@,
    ensures
        map_of(pairs.update(i, value)) == map_of(pairs).insert(value.0@, value.1@),
    decreases pairs.len(),
{
    let last = pairs.len() - 1;
    if i == last {
        assert(pairs.update(i, value).drop_last() =~= pairs.drop_last());
        assert(map_of(pairs.update(i, value)) =~= map_of(pairs).insert(value.0@, value.1@));
    } else {
        assert(distinct_keys(pairs.drop_last()));
        lemma_map_of_update(pairs.drop_last(), i, value);
        assert(pairs.update(i, value).drop_last() =~= pairs.drop_last().update(i, value));
        assert(pairs[i].0@ != pairs[last].0@);
        assert(map_of(pairs.update(i, value)) =~= map_of(pairs).insert(value.0@, value.1@));
    }
}

impl TokenMap {
    /// Each monitor occurs once.
    #[verifier::type_invariant]
    spec fn well_formed(&self) -> bool {
        distinct_keys(self.pairs@)
    }

    /// No tokens.
    pub fn new() -> (r: Self)
        ensures
            r@ == Map::<Seq<char>, Seq<char>>::empty(),
    {
        TokenMap { pairs: Vec::new() }
    }

    /// The token of a monitor.
    pub fn get(&self, monitor: &str) -> (r: Option<&String>)
        ensures
            match r {
                Some(token) => self@.contains_key(monitor@) && self@[monitor@] == token@,
                None => !self@.contains_key(monitor@),
            },
    {
        proof {
            use_type_invariant(self);
        }
        let key: String = monitor.to_owned();
        let mut i: usize = 0;
        while i < self.pairs.len()
            invariant
                i <= self.pairs.len(),
                key@ == monitor@,
                distinct_keys(self.pairs@),
                forall|k: int| 0 <= k < i ==> (#[trigger] self.pairs@[k]).0@ != monitor@,
            decreases self.pairs.len() - i,
        {
            if self.pairs[i].0 == key {
                proof {
                    lemma_map_of(self.pairs@, i as int);
                }
                return Some(&self.pairs[i].1);
            }
            i = i + 1;
        }
        proof {
            lemma_map_of_absent(self.pairs@, monitor@);
        }
        None
    }

    /// Sets the token of a monitor.
    pub fn insert(self, monitor: &str, token: &str) -> (r: Self)
        ensures
            r@ == self@.insert(monitor@, token@),
    {
        proof {
            use_type_invariant(&self);
        }
        let key: String = monitor.to_owned();
        let mut pairs: Vec<(String, String)> = self.pairs;
        let mut i: usize = 0;
        while i < pairs.len()
            invariant
                i <= pairs.len(),
                key@ == monitor@,
                distinct_keys(pairs@),
                map_of(pairs@) == self@,
                forall|k: int| 0 <= k < i ==> (#[trigger] pairs@[k]).0@ != monitor@,
            decreases pairs.len() - i,
        {
            if pairs[i].0 == key {
                let pair: (String, String) = (key, token.to_owned());
                proof {
                    lemma_map_of_update(pairs@, i as int, pair);
                }
                pairs.set(i, pair);
                return TokenMap { pairs };
            }
            i = i + 1;
        }
        let ghost before = pairs@;
        pairs.push((key, token.to_owned()));
        assert(pairs@.drop_last() =~= before);
        TokenMap { pairs }
    }
}

/// The tokens that the options hold: none where the option is empty or is no JSON object of texts.
pub open spec fn stored_tokens(restore_tokens: Seq<char>) -> Map<Seq<char>, Seq<char>> {
    match json_text_map(restore_tokens) {
        Some(map) if restore_tokens.len() > 0 => map,
        _ => Map::empty(),
    }
}

/// Whether restore tokens are used: on every desktop whose portal knows them.
pub fn should_use_restore_token(is_support_restore_token: bool) -> (r: bool)
    ensures
        r == is_support_restore_token,
{
    is_support_restore_token
}

/// Options without any token or cache.
pub open spec fn cleared_options() -> OptionsView {
    OptionsView { restore_token: seq![], restore_tokens: seq![], display_offset: seq![] }
}

/// Forgets all tokens and the cache of positions.
pub fn clear_restore_token_state(options: &mut LocalOptions)
    ensures
        final(options)@ == cleared_options(),
{
    options.restore_token = String::new();
    options.restore_tokens = String::new();
    options.display_offset = String::new();
}

/// Reads the tokens of all monitors.
pub fn load_restore_tokens(options: &LocalOptions) -> (r: TokenMap)
    ensures
        r@ == stored_tokens(options@.restore_tokens),
{
    if options.restore_tokens.as_str().is_empty() {
        return TokenMap::new();
    }
    match parse_text_map(options.restore_tokens.as_str()) {
        Ok(pairs) => TokenMap { pairs },
        Err(_) => TokenMap::new(),
    }
}

/// What is to be done with a token for a monitor.
pub enum TokenUpdate {
    /// Nothing changes.
    Keep,
    /// The tokens stay, the single token goes.
    DropSingle,
    /// The monitor gets the token, the single token stays.
    Store,
    /// The monitor gets the token, the single token goes.
    StoreAndDropSingle,
}

/// What is to be done with a token, given the tokens by monitor and the single token.
///
/// The single token goes where it was the monitor's token, or where it is the new one: it has
/// then found its place among the tokens by monitor.
pub open spec fn token_update(
    tokens: Map<Seq<char>, Seq<char>>,
    single: Seq<char>,
    monitor: Seq<char>,
    token: Seq<char>,
) -> TokenUpdate {
    let was_single = tokens.contains_key(monitor) && tokens[monitor] == single;
    if monitor.len() == 0 || token.len() == 0 {
        TokenUpdate::Keep
    } else if tokens.contains_key(monitor) && tokens[monitor] == token {
        if was_single {
            TokenUpdate::DropSingle
        } else {
            TokenUpdate::Keep
        }
    } else if was_single || single == token {
        TokenUpdate::StoreAndDropSingle
    } else {
        TokenUpdate::Store
    }
}

/// Decides what is to be done with a token for a monitor.
pub fn decide_token_update(tokens: &TokenMap, single: &String, monitor: &str, token: &str) -> (r:
    TokenUpdate)
    ensures
        r == token_update(tokens@, single@, monitor@, token@),
{
    if monitor.is_empty() || token.is_empty() {
        return TokenUpdate::Keep;
    }
    let new: String = token.to_owned();
    let (was_single, is_same) = match tokens.get(monitor) {
        Some(mapped) => (*mapped == *single, *mapped == new),
        None => (false, false),
    };
    if is_same {
        if was_single {
            TokenUpdate::DropSingle
        } else {
            TokenUpdate::Keep
        }
    } else if was_single || *single == new {
        TokenUpdate::StoreAndDropSingle
    } else {
        TokenUpdate::Store
    }
}

/// The options after a token was saved for a monitor.
pub open spec fn token_saved(
    before: OptionsView,
    after: OptionsView,
    monitor: Seq<char>,
    token: Seq<char>,
) -> bool {
    let tokens = stored_tokens(before.restore_tokens);
    let update = token_update(tokens, before.restore_token, monitor, token);
    &&& after.display_offset == before.display_offset
    &&& after.restore_token == (if update is DropSingle || update is StoreAndDropSingle {
        seq![]
    } else {
        before.restore_token
    })
    &&& if update is Store || update is StoreAndDropSingle {
        stored_tokens(after.restore_tokens) == tokens.insert(monitor, token)
    } else {
        after.restore_tokens == before.restore_tokens
    }
}

/// Saves the token of a monitor, so that the monitor can be restored after a restart.
pub fn save_restore_token_for(options: &mut LocalOptions, monitor: &str, token: &str)
    ensures
        token_saved(old(options)@, final(options)@, monitor@, token@),
{
    let tokens: TokenMap = load_restore_tokens(options);
    match decide_token_update(&tokens, &options.restore_token, monitor, token) {
        TokenUpdate::Keep => {},
        TokenUpdate::DropSingle => {
            options.restore_token = String::new();
        },
        TokenUpdate::Store => {
            match write_text_map(tokens.insert(monitor, token).pairs) {
                Ok(text) => {
                    options.restore_tokens = text;
                },
                Err(_) => {},
            }
        },
        TokenUpdate::StoreAndDropSingle => {
            match write_text_map(tokens.insert(monitor, token).pairs) {
                Ok(text) => {
                    options.restore_tokens = text;
                    options.restore_token = String::new();
                },
                Err(_) => {},
            }
        },
    }
}

/// A token that was saved for a monitor is found again for that monitor, and the tokens of all
/// other monitors stay as they were.
pub proof fn law_saved_token_is_found(
    before: OptionsView,
    after: OptionsView,
    monitor: Seq<char>,
    token: Seq<char>,
)
    requires
        token_saved(before, after, monitor, token),
        monitor.len() > 0,
        token.len() > 0,
    ensures
        stored_tokens(after.restore_tokens).contains_key(monitor),
        stored_tokens(after.restore_tokens)[monitor] == token,
        forall|other: Seq<char>|
            other != monitor ==> {
                &&& stored_tokens(after.restore_tokens).contains_key(other) == stored_tokens(
                    before.restore_tokens,
                ).contains_key(other)
                &&& stored_tokens(after.restore_tokens).contains_key(other) ==> #[trigger] stored_tokens(
                    after.restore_tokens,
                )[other] == stored_tokens(before.restore_tokens)[other]
            },
{
}

/// Saving for no monitor, or saving no token, changes nothing.
pub proof fn law_empty_token_changes_nothing(
    before: OptionsView,
    after: OptionsView,
    monitor: Seq<char>,
    token: Seq<char>,
)
    requires
        token_saved(before, after, monitor, token),
        monitor.len() == 0 || token.len() == 0,
    ensures
        after == before,
{
}

/// To save a token a second time changes nothing more.
pub proof fn law_saving_twice(
    before: OptionsView,
    once: OptionsView,
    twice: OptionsView,
    monitor: Seq<char>,
    token: Seq<char>,
)
    requires
        token_saved(before, once, monitor, token),
        token_saved(once, twice, monitor, token),
    ensures
        twice == once,
{
}

/// After everything was forgotten no monitor has a token.
pub proof fn law_cleared_options_hold_no_token()
    ensures
        stored_tokens(cleared_options().restore_tokens) == Map::<Seq<char>, Seq<char>>::empty(),
{
}

/// The single token is dropped once it has found its place among the tokens by monitor: where it
/// was the token of the monitor, or where it is the new one and is stored now. Else it stays. The
/// cache of positions stays in any case.
pub proof fn law_single_token_finds_its_place(
    before: OptionsView,
    after: OptionsView,
    monitor: Seq<char>,
    token: Seq<char>,
)
    requires
        token_saved(before, after, monitor, token),
        monitor.len() > 0,
        token.len() > 0,
    ensures
        ({
            let tokens = stored_tokens(before.restore_tokens);
            let had = tokens.contains_key(monitor);
            &&& had && tokens[monitor] == before.restore_token ==> after.restore_token.len() == 0
            &&& !(had && tokens[monitor] == token) && before.restore_token == token
                ==> after.restore_token.len() == 0
            &&& !(had && tokens[monitor] == before.restore_token) && before.restore_token != token
                ==> after.restore_token == before.restore_token
            &&& had && tokens[monitor] == token ==> after.restore_tokens == before.restore_tokens
            &&& after.display_offset == before.display_offset
        }),
{
}

/// The tokens that are stored are those of the JSON object that the option holds; none where the
/// option is empty, or holds no such object.
pub proof fn law_stored_tokens_are_read(restore_tokens: Seq<char>)
    ensures
        restore_tokens.len() == 0 ==> stored_tokens(restore_tokens) == Map::<
            Seq<char>,
            Seq<char>,
        >::empty(),
        json_text_map(restore_tokens) is None ==> stored_tokens(restore_tokens) == Map::<
            Seq<char>,
            Seq<char>,
        >::empty(),
        restore_tokens.len() > 0 && json_text_map(restore_tokens) is Some ==> stored_tokens(
            restore_tokens,
        ) == json_text_map(restore_tokens)->0,
{
}

/// Cleared options hold nothing.
pub proof fn law_cleared_options_are_empty()
    ensures
        cleared_options().restore_token.len() == 0,
        cleared_options().restore_tokens.len() == 0,
        cleared_options().display_offset.len() == 0,
{
}

} // verus!
