//! Event keys and handler statistics.
//!
//! Events are routed by keys that name their category first:
//! `core:<event>`, `client:<namespace>:<event>`, `plugin:<plugin>:<event>`,
//! `gorc:<object type>:<channel>:<event>` and
//! `gorc_instance:<object type>:<channel>:<event>`.

use vstd::prelude::*;

verus! {

/// Concatenates two strings: `a` followed by `b`.
pub(crate) fn concat_str(a: &str, b: &str) -> (res: String)
    ensures
        res@ == a@ + b@,
{
    StringExecFns::concat(a.to_owned(), b)
}

/// The characters of a string slice, in order.
pub fn chars_of(s: &str) -> (v: Vec<char>)
    ensures
        v@ == s@,
{
    let mut v: Vec<char> = Vec::new();
    for c in it: s.chars()
        invariant
            v@ == it.seq().take(it.index() as int),
            it.seq() == s@,
    {
        v.push(c);
        proof {
            assert(it.seq().take(it.index() + 1) =~= it.seq().take(it.index() as int).push(c));
        }
    }
    proof {
        assert(s@.take(s@.len() as int) =~= s@);
    }
    v
}

/// Whether `prefix` starts the character sequence `s`.
pub open spec fn spec_has_prefix(s: Seq<char>, prefix: Seq<char>) -> bool {
    prefix.len() <= s.len() && s.take(prefix.len() as int) == prefix
}

/// Returns whether `s` starts with `prefix`.
pub fn starts_with(s: &str, prefix: &str) -> (b: bool)
    ensures
        b == spec_has_prefix(s@, prefix@),
{
    let sv = chars_of(s);
    let pv = chars_of(prefix);
    if pv.len() > sv.len() {
        return false;
    }
    let mut i: usize = 0;
    while i < pv.len()
        invariant
            sv@ == s@,
            pv@ == prefix@,
            pv@.len() <= sv@.len(),
            0 <= i <= pv@.len(),
            forall|j: int| 0 <= j < i ==> sv@[j] == pv@[j],
        decreases pv@.len() - i,
    {
        if sv[i] != pv[i] {
            proof {
                assert(s@.take(prefix@.len() as int)[i as int] != prefix@[i as int]);
            }
            return false;
        }
        i = i + 1;
    }
    assert(s@.take(prefix@.len() as int) =~= prefix@);
    true
}

/// Category of an event handler, as its key names it.
#[derive(Debug, Clone, Copy, PartialEq, Eq, Structural)]
pub enum HandlerCategory {
    Core,
    Client,
    Plugin,
    GorcInstance,
    Gorc,
}

/// The category an event key names: the first of the prefixes `core:`,
/// `client:`, `plugin:`, `gorc_instance:` and `gorc:` that starts it.
pub open spec fn spec_category(key: Seq<char>) -> Option<HandlerCategory> {
    if spec_has_prefix(key, "core:"@) {
        Some(HandlerCategory::Core)
    } else if spec_has_prefix(key, "client:"@) {
        Some(HandlerCategory::Client)
    } else if spec_has_prefix(key, "plugin:"@) {
        Some(HandlerCategory::Plugin)
    } else if spec_has_prefix(key, "gorc_instance:"@) {
        Some(HandlerCategory::GorcInstance)
    } else if spec_has_prefix(key, "gorc:"@) {
        Some(HandlerCategory::Gorc)
    } else {
        None
    }
}

/// The category an event key names, if any.
pub fn handler_category(key: &str) -> (c: Option<HandlerCategory>)
    ensures
        c == spec_category(key@),
{
    if starts_with(key, "core:") {
        Some(HandlerCategory::Core)
    } else if starts_with(key, "client:") {
        Some(HandlerCategory::Client)
    } else if starts_with(key, "plugin:") {
        Some(HandlerCategory::Plugin)
    } else if starts_with(key, "gorc_instance:") {
        Some(HandlerCategory::GorcInstance)
    } else if starts_with(key, "gorc:") {
        Some(HandlerCategory::Gorc)
    } else {
        None
    }
}

/// Whether an emitted event counts as a GORC event: its key starts with
/// `gorc` (instance events included).
pub fn is_gorc_event_key(key: &str) -> (b: bool)
    ensures
        b == spec_has_prefix(key@, "gorc"@),
{
    starts_with(key, "gorc")
}

/// Key of a core server event: `core:<event>`.
pub fn core_event_key(event_name: &str) -> (k: String)
    ensures
        k@ == "core:"@ + event_name@,
{
    concat_str("core:", event_name)
}

/// Key of a client event: `client:<namespace>:<event>`.
pub fn client_event_key(namespace: &str, event_name: &str) -> (k: String)
    ensures
        k@ == "client:"@ + namespace@ + ":"@ + event_name@,
{
    let a = concat_str("client:", namespace);
    let b = concat_str(a.as_str(), ":");
    concat_str(b.as_str(), event_name)
}

/// Key of a plugin event: `plugin:<plugin>:<event>`.
pub fn plugin_event_key(plugin_name: &str, event_name: &str) -> (k: String)
    ensures
        k@ == "plugin:"@ + plugin_name@ + ":"@ + event_name@,
{
    let a = concat_str("plugin:", plugin_name);
    let b = concat_str(a.as_str(), ":");
    concat_str(b.as_str(), event_name)
}

/// The decimal digit character of a value below 10.
pub open spec fn spec_digit(d: int) -> char {
    if d == 0 {
        '0'
    } else if d == 1 {
        '1'
    } else if d == 2 {
        '2'
    } else if d == 3 {
        '3'
    } else if d == 4 {
        '4'
    } else if d == 5 {
        '5'
    } else if d == 6 {
        '6'
    } else if d == 7 {
        '7'
    } else if d == 8 {
        '8'
    } else {
        '9'
    }
}

/// The decimal text of a number, without leading zeros.
pub open spec fn spec_decimal(n: nat) -> Seq<char>
    decreases n,
{
    if n < 10 {
        seq![spec_digit(n as int)]
    } else {
        spec_decimal(n / 10).push(spec_digit((n % 10) as int))
    }
}

/// The text of one decimal digit.
fn digit_text(d: u8) -> (t: String)
    requires
        d < 10,
    ensures
        t@ == seq![spec_digit(d as int)],
{
    let lit = match d {
        0 => "0",
        1 => "1",
        2 => "2",
        3 => "3",
        4 => "4",
        5 => "5",
        6 => "6",
        7 => "7",
        8 => "8",
        _ => "9",
    };
    proof {
        reveal_strlit("0");
        reveal_strlit("1");
        reveal_strlit("2");
        reveal_strlit("3");
        reveal_strlit("4");
        reveal_strlit("5");
        reveal_strlit("6");
        reveal_strlit("7");
        reveal_strlit("8");
        reveal_strlit("9");
        assert(lit@ =~= seq![spec_digit(d as int)]);
    }
    lit.to_owned()
}

/// The decimal text of a channel number.
pub fn decimal_text(n: u8) -> (t: String)
    ensures
        t@ == spec_decimal(n as nat),
{
    proof {
        reveal_with_fuel(spec_decimal, 3);
    }
    if n < 10 {
        digit_text(n)
    } else if n < 100 {
        let tens = digit_text(n / 10);
        let ones = digit_text(n % 10);
        proof {
            assert(spec_decimal((n / 10) as nat) == seq![spec_digit((n / 10) as int)]);
        }
        let t = concat_str(tens.as_str(), ones.as_str());
        proof {
            assert(t@ =~= spec_decimal((n / 10) as nat).push(spec_digit((n % 10) as int)));
        }
        t
    } else {
        let hundreds = digit_text(n / 100);
        let tens = digit_text((n / 10) % 10);
        let ones = digit_text(n % 10);
        let a = concat_str(hundreds.as_str(), tens.as_str());
        let t = concat_str(a.as_str(), ones.as_str());
        proof {
            let m = (n / 10) as nat;
            assert(m / 10 == (n / 100) as nat);
            assert(m % 10 == ((n / 10) % 10) as nat);
            assert(spec_decimal(m / 10) == seq![spec_digit((n / 100) as int)]);
            assert(spec_decimal(m) == spec_decimal(m / 10).push(spec_digit((m % 10) as int)));
            assert(t@ =~= spec_decimal(m).push(spec_digit((n % 10) as int)));
        }
        t
    }
}

/// Key of an event of an object instance:
/// `gorc_instance:<object type>:<channel>:<event>`.
pub fn gorc_instance_event_key(object_type: &str, channel: u8, event_name: &str) -> (k: String)
    ensures
        k@ == "gorc_instance:"@ + object_type@ + ":"@ + spec_decimal(channel as nat) + ":"@ + event_name@,
{
    let c = decimal_text(channel);
    let a = concat_str("gorc_instance:", object_type);
    let b = concat_str(a.as_str(), ":");
    let d = concat_str(b.as_str(), c.as_str());
    let e = concat_str(d.as_str(), ":");
    concat_str(e.as_str(), event_name)
}

/// Every event key built by `gorc_instance_event_key` is routed to the
/// instance-event category.
pub proof fn law_instance_keys_route_to_instance_category(object_type: Seq<char>, channel: nat, name: Seq<char>)
    ensures
        spec_category("gorc_instance:"@ + object_type + ":"@ + spec_decimal(channel) + ":"@ + name) == Some(
            HandlerCategory::GorcInstance,
        ),
{
    reveal_strlit("gorc_instance:");
    reveal_strlit("core:");
    reveal_strlit("client:");
    reveal_strlit("plugin:");
    let key = "gorc_instance:"@ + object_type + ":"@ + spec_decimal(channel) + ":"@ + name;
    assert(key[0] == 'g');
    assert(key.take(14) =~= "gorc_instance:"@);
    assert(key.take(5) !~= "core:"@) by {
        assert(key.take(5)[0] != "core:"@[0]);
    }
    assert(key.take(7) !~= "client:"@) by {
        assert(key.take(7)[0] != "client:"@[0]);
    }
    assert(key.take(7) !~= "plugin:"@) by {
        assert(key.take(7)[0] != "plugin:"@[0]);
    }
}

/// Every event key built by `core_event_key`, `client_event_key` and
/// `plugin_event_key` is routed to the category it was built for.
pub proof fn law_event_keys_route_to_their_category(namespace: Seq<char>, name: Seq<char>)
    ensures
        spec_category("core:"@ + name) == Some(HandlerCategory::Core),
        spec_category("client:"@ + namespace + ":"@ + name) == Some(HandlerCategory::Client),
        spec_category("plugin:"@ + namespace + ":"@ + name) == Some(HandlerCategory::Plugin),
{
    reveal_strlit("core:");
    reveal_strlit("client:");
    reveal_strlit("plugin:");
    let core_key = "core:"@ + name;
    let client_key = "client:"@ + namespace + ":"@ + name;
    let plugin_key = "plugin:"@ + namespace + ":"@ + name;
    assert(core_key.take(5) =~= "core:"@);
    assert(client_key[1] == 'l');
    assert(client_key.take(7) =~= "client:"@);
    assert(client_key.take(5) !~= "core:"@) by {
        assert(client_key.take(5)[1] != "core:"@[1]);
    }
    assert(plugin_key[1] == 'l');
    assert(plugin_key[0] == 'p');
    assert(plugin_key.take(5) !~= "core:"@) by {
        assert(plugin_key.take(5)[0] != "core:"@[0]);
    }
    assert(plugin_key.take(7) !~= "client:"@) by {
        assert(plugin_key.take(7)[0] != "client:"@[0]);
    }
    assert(plugin_key.take(7) =~= "plugin:"@);
}

/// Handler count breakdown by event category.
#[derive(Debug, Clone, Copy, PartialEq, Eq, Structural)]
pub struct HandlerCategoryStats {
    /// Number of core event handlers
    pub core_handlers: usize,
    /// Number of client event handlers
    pub client_handlers: usize,
    /// Number of plugin event handlers
    pub plugin_handlers: usize,
    /// Number of basic GORC event handlers
    pub gorc_handlers: usize,
    /// Number of GORC instance event handlers
    pub gorc_instance_handlers: usize,
}

/// Sum of the handler counts of the entries whose keys fall in `cat`.
pub open spec fn spec_category_total(entries: Seq<(String, usize)>, cat: HandlerCategory) -> nat
    decreases entries.len(),
{
    if entries.len() == 0 {
        0
    } else {
        let last = entries.last();
        spec_category_total(entries.drop_last(), cat) + if spec_category(last.0@) == Some(cat) {
            last.1 as nat
        } else {
            0
        }
    }
}

/// Sum of all handler counts.
pub open spec fn spec_handler_total(entries: Seq<(String, usize)>) -> nat
    decreases entries.len(),
{
    if entries.len() == 0 {
        0
    } else {
        spec_handler_total(entries.drop_last()) + entries.last().1 as nat
    }
}

proof fn lemma_category_total_bounded(entries: Seq<(String, usize)>, cat: HandlerCategory)
    ensures
        spec_category_total(entries, cat) <= spec_handler_total(entries),
    decreases entries.len(),
{
    if entries.len() > 0 {
        lemma_category_total_bounded(entries.drop_last(), cat);
    }
}

/// Counts handlers per category from `(key, handler count)` entries; keys in
/// no category are not counted.
pub fn count_handlers_by_category(entries: &Vec<(String, usize)>) -> (s: HandlerCategoryStats)
    requires
        spec_handler_total(entries@) <= usize::MAX,
    ensures
        s.core_handlers == spec_category_total(entries@, HandlerCategory::Core),
        s.client_handlers == spec_category_total(entries@, HandlerCategory::Client),
        s.plugin_handlers == spec_category_total(entries@, HandlerCategory::Plugin),
        s.gorc_handlers == spec_category_total(entries@, HandlerCategory::Gorc),
        s.gorc_instance_handlers == spec_category_total(entries@, HandlerCategory::GorcInstance),
{
    let mut s = HandlerCategoryStats {
        core_handlers: 0,
        client_handlers: 0,
        plugin_handlers: 0,
        gorc_handlers: 0,
        gorc_instance_handlers: 0,
    };
    let mut i: usize = 0;
    while i < entries.len()
        invariant
            0 <= i <= entries@.len(),
            spec_handler_total(entries@) <= usize::MAX,
            s.core_handlers == spec_category_total(entries@.take(i as int), HandlerCategory::Core),
            s.client_handlers == spec_category_total(entries@.take(i as int), HandlerCategory::Client),
            s.plugin_handlers == spec_category_total(entries@.take(i as int), HandlerCategory::Plugin),
            s.gorc_handlers == spec_category_total(entries@.take(i as int), HandlerCategory::Gorc),
            s.gorc_instance_handlers == spec_category_total(entries@.take(i as int), HandlerCategory::GorcInstance),
        decreases entries@.len() - i,
    {
        let ghost prefix = entries@.take(i as int);
        let ghost next = entries@.take(i + 1);
        proof {
            assert(next.drop_last() =~= prefix);
            assert(next.last() == entries@[i as int]);
            lemma_handler_total_prefix(entries@, i + 1);
            lemma_category_total_bounded(next, HandlerCategory::Core);
            lemma_category_total_bounded(next, HandlerCategory::Client);
            lemma_category_total_bounded(next, HandlerCategory::Plugin);
            lemma_category_total_bounded(next, HandlerCategory::Gorc);
            lemma_category_total_bounded(next, HandlerCategory::GorcInstance);
        }
        let count = entries[i].1;
        match handler_category(entries[i].0.as_str()) {
            Some(HandlerCategory::Core) => s.core_handlers = s.core_handlers + count,
            Some(HandlerCategory::Client) => s.client_handlers = s.client_handlers + count,
            Some(HandlerCategory::Plugin) => s.plugin_handlers = s.plugin_handlers + count,
            Some(HandlerCategory::GorcInstance) => s.gorc_instance_handlers = s.gorc_instance_handlers + count,
            Some(HandlerCategory::Gorc) => s.gorc_handlers = s.gorc_handlers + count,
            None => {},
        }
        i = i + 1;
    }
    proof {
        assert(entries@.take(entries@.len() as int) =~= entries@);
    }
    s
}

proof fn lemma_handler_total_prefix(entries: Seq<(String, usize)>, n: int)
    requires
        0 <= n <= entries.len(),
    ensures
        spec_handler_total(entries.take(n)) <= spec_handler_total(entries),
    decreases entries.len() - n,
{
    if n < entries.len() {
        lemma_handler_total_prefix(entries, n + 1);
        assert(entries.take(n + 1).drop_last() =~= entries.take(n));
    } else {
        assert(entries.take(n) =~= entries);
    }
}

} // verus!
