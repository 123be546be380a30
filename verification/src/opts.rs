//! Command-line options and the persistent configuration of the bot.
use vstd::prelude::*;
use crate::text::str_equal;

verus! {

/// Command-line options of the bot.
#[derive(Debug)]
pub struct Cli {
    /// Telegram username of the target person.
    pub shutup_target: String,
    /// Username of the initial admin of the bot.
    pub initial_admin: String,
    /// Number of memes per day that the person can send without limitations.
    pub meme_limit: usize,
    /// Level of logs to write.
    pub log_level: String,
    /// Time (in seconds) of request connection timeout.
    pub connect_timeout: u64,
    /// Time (in seconds) of full request timeout.
    pub timeout: u64,
    pub concurrent_connections: usize,
}

/// `tracing`, the most verbose level as the option's documentation names it.
pub open spec fn tracing_level(level: Seq<char>) -> bool {
    level == "tracing"@ || level == "TRACING"@
}

/// The log levels that the bot accepts, in lower and upper case: error, warn, info,
/// debug, and trace (also written tracing).
pub open spec fn supported_log_level(level: Seq<char>) -> bool {
    ||| tracing_level(level)
    ||| level == "error"@
    ||| level == "warn"@
    ||| level == "info"@
    ||| level == "debug"@
    ||| level == "trace"@
    ||| level == "ERROR"@
    ||| level == "WARN"@
    ||| level == "INFO"@
    ||| level == "DEBUG"@
    ||| level == "TRACE"@
}

impl Cli {
    /// Whether `log_level` names a supported level; setting up the logs refuses any other.
    pub fn log_level_supported(&self) -> (ok: bool)
        ensures
            ok == supported_log_level(self.log_level@),
    {
        let l = self.log_level.as_str();
        str_equal(l, "error") || str_equal(l, "warn") || str_equal(l, "info")
            || str_equal(l, "debug") || str_equal(l, "trace") || str_equal(l, "ERROR")
            || str_equal(l, "WARN") || str_equal(l, "INFO") || str_equal(l, "DEBUG")
            || str_equal(l, "TRACE") || str_equal(l, "tracing") || str_equal(l, "TRACING")
    }

    /// The level for the log filter: `trace` for `tracing` (in either case), the given
    /// level otherwise.
    pub fn log_filter_level(&self) -> (level: String)
        ensures
            tracing_level(self.log_level@) ==> level@ == "trace"@,
            !tracing_level(self.log_level@) ==> level@ == self.log_level@,
    {
        let l = self.log_level.as_str();
        if str_equal(l, "tracing") || str_equal(l, "TRACING") {
            String::from_str("trace")
        } else {
            String::from_str(l)
        }
    }
}

/// The configuration as sets: the admins' usernames, the daily meme limit, the users that
/// get the deleted memes forwarded and the chats subscribed to the queue.
pub ghost struct ConfigView {
    pub admins: Set<Seq<char>>,
    pub meme_limit: usize,
    pub forward_subscribers: Set<u64>,
    pub queue_subscribers: Set<i64>,
}

/// The persistent configuration of the bot. Each collection holds no element twice.
#[derive(Debug)]
pub struct Config {
    admins: Vec<String>,
    meme_limit: usize,
    forward_subscribers: Vec<u64>,
    queue_subscribers: Vec<i64>,
}

pub open spec fn string_views(v: Seq<String>) -> Seq<Seq<char>> {
    v.map_values(|s: String| s@)
}

impl Config {
    #[verifier::type_invariant]
    closed spec fn inv(self) -> bool {
        &&& string_views(self.admins@).no_duplicates()
        &&& self.forward_subscribers@.no_duplicates()
        &&& self.queue_subscribers@.no_duplicates()
    }

    /// The forward subscribers in the order in which they get the forwards.
    pub closed spec fn forward_list(self) -> Seq<u64> {
        self.forward_subscribers@
    }
}

impl View for Config {
    type V = ConfigView;

    closed spec fn view(&self) -> ConfigView {
        ConfigView {
            admins: string_views(self.admins@).to_set(),
            meme_limit: self.meme_limit,
            forward_subscribers: self.forward_subscribers@.to_set(),
            queue_subscribers: self.queue_subscribers@.to_set(),
        }
    }
}

fn contains_string(v: &Vec<String>, s: &str) -> (res: bool)
    ensures
        res == string_views(v@).contains(s@),
{
    let mut i: usize = 0;
    while i < v.len()
        invariant
            i <= v.len(),
            forall|j: int| 0 <= j < i ==> v@[j]@ != s@,
        decreases v.len() - i,
    {
        if str_equal(v[i].as_str(), s) {
            assert(string_views(v@)[i as int] == s@);
            return true;
        }
        i = i + 1;
    }
    assert forall|j: int| 0 <= j < string_views(v@).len() implies string_views(v@)[j] != s@ by {}
    false
}

fn contains_u64(v: &Vec<u64>, x: u64) -> (res: bool)
    ensures
        res == v@.contains(x),
{
    let mut i: usize = 0;
    while i < v.len()
        invariant
            i <= v.len(),
            forall|j: int| 0 <= j < i ==> v@[j] != x,
        decreases v.len() - i,
    {
        if v[i] == x {
            return true;
        }
        i = i + 1;
    }
    false
}

fn contains_i64(v: &Vec<i64>, x: i64) -> (res: bool)
    ensures
        res == v@.contains(x),
{
    let mut i: usize = 0;
    while i < v.len()
        invariant
            i <= v.len(),
            forall|j: int| 0 <= j < i ==> v@[j] != x,
        decreases v.len() - i,
    {
        if v[i] == x {
            return true;
        }
        i = i + 1;
    }
    false
}

proof fn lemma_push_no_dup<A>(s: Seq<A>, x: A)
    requires
        s.no_duplicates(),
        !s.contains(x),
    ensures
        s.push(x).no_duplicates(),
        s.push(x).to_set() == s.to_set().insert(x),
{
    assert forall|i: int, j: int| 0 <= i < j < s.push(x).len() implies s.push(x)[i] != s.push(x)[j] by {
        if j == s.len() {
            assert(s.contains(s[i]));
        }
    }
    lemma_to_set_push(s, x);
}

proof fn lemma_remove_no_dup<A>(s: Seq<A>, i: int)
    requires
        s.no_duplicates(),
        0 <= i < s.len(),
    ensures
        s.remove(i).no_duplicates(),
        s.remove(i).to_set() == s.to_set().remove(s[i]),
{
    let r = s.remove(i);
    assert forall|a: int, b: int| 0 <= a < b < r.len() implies r[a] != r[b] by {
        let a2 = if a < i { a } else { a + 1 };
        let b2 = if b < i { b } else { b + 1 };
        assert(r[a] == s[a2] && r[b] == s[b2]);
    }
    assert(r.to_set() =~= s.to_set().remove(s[i])) by {
        assert forall|y: A| r.to_set().contains(y) <==> s.to_set().remove(s[i]).contains(y) by {
            if r.contains(y) {
                let k = choose|k: int| 0 <= k < r.len() && r[k] == y;
                let k2 = if k < i { k } else { k + 1 };
                assert(s[k2] == y);
                assert(k2 != i);
            }
            if s.contains(y) && y != s[i] {
                let k = choose|k: int| 0 <= k < s.len() && s[k] == y;
                assert(k != i);
                let k2 = if k < i { k } else { k - 1 };
                assert(r[k2] == y);
            }
        }
    }
}

impl Config {
    /// The configuration the bot starts with when none was saved: the initial admin alone,
    /// a limit of three memes and no subscribers.
    pub fn default_for(initial_admin: String) -> (c: Config)
        ensures
            c@.admins == set![initial_admin@],
            c@.meme_limit == 3,
            c@.forward_subscribers == Set::<u64>::empty(),
            c@.queue_subscribers == Set::<i64>::empty(),
    {
        let mut admins: Vec<String> = Vec::new();
        let ghost name = initial_admin@;
        admins.push(initial_admin);
        assert(string_views(admins@) =~= seq![name]);
        assert(string_views(admins@).to_set() =~= set![name]) by {
            assert(string_views(admins@)[0] == name);
        }
        let forward_subscribers: Vec<u64> = Vec::new();
        let queue_subscribers: Vec<i64> = Vec::new();
        assert(forward_subscribers@.to_set() =~= Set::<u64>::empty());
        assert(queue_subscribers@.to_set() =~= Set::<i64>::empty());
        Config { admins, meme_limit: 3, forward_subscribers, queue_subscribers }
    }

    /// The configuration the bot starts with: the saved one where it could be read, else
    /// the default one for `initial_admin` with `meme_limit` as its daily limit.
    pub fn loaded_or_default(loaded: Option<Config>, initial_admin: String, meme_limit: usize) -> (c: Config)
        ensures
            match loaded {
                Some(l) => c == l,
                None => {
                    &&& c@.admins == set![initial_admin@]
                    &&& c@.meme_limit == meme_limit
                    &&& c@.forward_subscribers == Set::<u64>::empty()
                    &&& c@.queue_subscribers == Set::<i64>::empty()
                },
            },
    {
        match loaded {
            Some(c) => c,
            None => {
                let mut c = Config::default_for(initial_admin);
                c.set_meme_limit(meme_limit);
                c
            },
        }
    }

    /// A configuration from its parts; an element given twice is kept once.
    pub fn from_parts(
        admins: Vec<String>,
        meme_limit: usize,
        forward_subscribers: Vec<u64>,
        queue_subscribers: Vec<i64>,
    ) -> (c: Config)
        ensures
            c@.admins == string_views(admins@).to_set(),
            c@.meme_limit == meme_limit,
            c@.forward_subscribers == forward_subscribers@.to_set(),
            c@.queue_subscribers == queue_subscribers@.to_set(),
    {
        let mut a: Vec<String> = Vec::new();
        let mut i: usize = 0;
        while i < admins.len()
            invariant
                i <= admins.len(),
                string_views(a@).no_duplicates(),
                string_views(a@).to_set() == string_views(admins@.subrange(0, i as int)).to_set(),
            decreases admins.len() - i,
        {
            let ghost before = string_views(a@);
            assert(string_views(admins@.subrange(0, i + 1)) =~= string_views(admins@.subrange(0, i as int)).push(admins@[i as int]@));
            if !contains_string(&a, admins[i].as_str()) {
                let s = admins[i].clone();
                a.push(s);
                assert(string_views(a@) =~= before.push(admins@[i as int]@));
                proof { lemma_push_no_dup(before, admins@[i as int]@); }
            }
            proof {
                lemma_to_set_push(string_views(admins@.subrange(0, i as int)), admins@[i as int]@);
                if before.contains(admins@[i as int]@) {
                    assert(before.to_set().insert(admins@[i as int]@) =~= before.to_set());
                }
            }
            i = i + 1;
        }
        assert(admins@.subrange(0, admins.len() as int) =~= admins@);
        let f = dedup_u64(&forward_subscribers);
        let q = dedup_i64(&queue_subscribers);
        Config { admins: a, meme_limit, forward_subscribers: f, queue_subscribers: q }
    }
}


impl Config {
    /// The admins' usernames, each once.
    pub fn admins(&self) -> (v: &Vec<String>)
        ensures
            string_views(v@).no_duplicates(),
            string_views(v@).to_set() == self@.admins,
    {
        proof { use_type_invariant(self); }
        &self.admins
    }

    pub fn meme_limit(&self) -> (n: usize)
        ensures
            n == self@.meme_limit,
    {
        self.meme_limit
    }

    /// The users that get the deleted memes forwarded, each once.
    pub fn forward_subscribers(&self) -> (v: &Vec<u64>)
        ensures
            v@.no_duplicates(),
            v@.to_set() == self@.forward_subscribers,
            v@ == self.forward_list(),
    {
        proof { use_type_invariant(self); }
        &self.forward_subscribers
    }

    /// The chats subscribed to the queue, each once.
    pub fn queue_subscribers(&self) -> (v: &Vec<i64>)
        ensures
            v@.no_duplicates(),
            v@.to_set() == self@.queue_subscribers,
    {
        proof { use_type_invariant(self); }
        &self.queue_subscribers
    }

    /// Whether `username` is among the admins.
    pub fn is_admin(&self, username: &str) -> (res: bool)
        ensures
            res == self@.admins.contains(username@),
    {
        let r = contains_string(&self.admins, username);
        proof {
            if string_views(self.admins@).to_set().contains(username@) {
                assert(string_views(self.admins@).contains(username@));
            }
        }
        r
    }

    /// Adds `username` to the admins.
    pub fn add_admin(&mut self, username: String)
        ensures
            final(self)@.admins == old(self)@.admins.insert(username@),
            final(self)@.meme_limit == old(self)@.meme_limit,
            final(self)@.forward_subscribers == old(self)@.forward_subscribers,
            final(self)@.queue_subscribers == old(self)@.queue_subscribers,
            final(self).forward_list() == old(self).forward_list(),
    {
        proof { use_type_invariant(&*self); }
        let ghost name = username@;
        let ghost before = string_views(self.admins@);
        if !contains_string(&self.admins, username.as_str()) {
            proof {
                lemma_push_no_dup(before, name);
            }
            let mut admins: Vec<String> = Vec::new();
            std::mem::swap(&mut admins, &mut self.admins);
            admins.push(username);
            assert(string_views(admins@) =~= before.push(name));
            self.admins = admins;
        } else {
            assert(before.to_set().insert(name) =~= before.to_set());
        }
    }

    /// Removes `username` from the admins, if it is there.
    pub fn remove_admin(&mut self, username: &str)
        ensures
            final(self)@.admins == old(self)@.admins.remove(username@),
            final(self)@.meme_limit == old(self)@.meme_limit,
            final(self)@.forward_subscribers == old(self)@.forward_subscribers,
            final(self)@.queue_subscribers == old(self)@.queue_subscribers,
            final(self).forward_list() == old(self).forward_list(),
    {
        proof { use_type_invariant(&*self); }
        let ghost before = string_views(self.admins@);
        let mut i: usize = 0;
        while i < self.admins.len()
            invariant
                i <= self.admins.len(),
                before == string_views(self.admins@),
                self.admins@ == old(self).admins@,
                before.no_duplicates(),
                self.forward_subscribers@.no_duplicates(),
                self.queue_subscribers@.no_duplicates(),
                self.meme_limit == old(self).meme_limit,
                self.forward_subscribers == old(self).forward_subscribers,
                self.queue_subscribers == old(self).queue_subscribers,
                forall|j: int| 0 <= j < i ==> before[j] != username@,
            decreases self.admins.len() - i,
        {
            if str_equal(self.admins[i].as_str(), username) {
                assert(before[i as int] == username@);
                proof { lemma_remove_no_dup(before, i as int); }
                let mut admins: Vec<String> = Vec::new();
                std::mem::swap(&mut admins, &mut self.admins);
                let _removed = admins.remove(i);
                assert(string_views(admins@) =~= before.remove(i as int));
                self.admins = admins;
                return;
            }
            i = i + 1;
        }
        assert(!before.contains(username@));
        assert(before.to_set().remove(username@) =~= before.to_set());
    }

    /// Sets the daily meme limit.
    pub fn set_meme_limit(&mut self, limit: usize)
        ensures
            final(self)@.meme_limit == limit,
            final(self)@.admins == old(self)@.admins,
            final(self)@.forward_subscribers == old(self)@.forward_subscribers,
            final(self)@.queue_subscribers == old(self)@.queue_subscribers,
            final(self).forward_list() == old(self).forward_list(),
    {
        proof { use_type_invariant(&*self); }
        self.meme_limit = limit;
    }

    /// Adds `user` to the users that get the deleted memes forwarded.
    pub fn subscribe_forwards(&mut self, user: u64)
        ensures
            final(self)@.forward_subscribers == old(self)@.forward_subscribers.insert(user),
            final(self)@.admins == old(self)@.admins,
            final(self)@.meme_limit == old(self)@.meme_limit,
            final(self)@.queue_subscribers == old(self)@.queue_subscribers,
            old(self).forward_list().contains(user) ==> final(self).forward_list() == old(self).forward_list(),
            !old(self).forward_list().contains(user) ==> final(self).forward_list() == old(self).forward_list().push(user),
    {
        proof { use_type_invariant(&*self); }
        let ghost before = self.forward_subscribers@;
        if !contains_u64(&self.forward_subscribers, user) {
            proof { lemma_push_no_dup(before, user); }
            let mut subs: Vec<u64> = Vec::new();
            std::mem::swap(&mut subs, &mut self.forward_subscribers);
            subs.push(user);
            self.forward_subscribers = subs;
        } else {
            assert(before.to_set().insert(user) =~= before.to_set());
        }
    }
}

proof fn lemma_to_set_push<A>(s: Seq<A>, x: A)
    ensures
        s.push(x).to_set() == s.to_set().insert(x),
{
    assert(s.push(x).to_set() =~= s.to_set().insert(x)) by {
        assert forall|y: A| s.push(x).to_set().contains(y) <==> s.to_set().insert(x).contains(y) by {
            if s.push(x).contains(y) && y != x {
                let k = choose|k: int| 0 <= k < s.push(x).len() && s.push(x)[k] == y;
                assert(s[k] == y);
            }
            if s.contains(y) {
                let k = choose|k: int| 0 <= k < s.len() && s[k] == y;
                assert(s.push(x)[k] == y);
            }
            if y == x {
                assert(s.push(x)[s.len() as int] == x);
            }
        }
    }
}

fn dedup_u64(v: &Vec<u64>) -> (r: Vec<u64>)
    ensures
        r@.no_duplicates(),
        r@.to_set() == v@.to_set(),
{
    let mut r: Vec<u64> = Vec::new();
    let mut i: usize = 0;
    while i < v.len()
        invariant
            i <= v.len(),
            r@.no_duplicates(),
            r@.to_set() == v@.subrange(0, i as int).to_set(),
        decreases v.len() - i,
    {
        let ghost before = r@;
        assert(v@.subrange(0, i + 1) =~= v@.subrange(0, i as int).push(v@[i as int]));
        if !contains_u64(&r, v[i]) {
            r.push(v[i]);
            proof { lemma_push_no_dup(before, v@[i as int]); }
        }
        proof {
            lemma_to_set_push(v@.subrange(0, i as int), v@[i as int]);
            if before.contains(v@[i as int]) {
                assert(before.to_set().insert(v@[i as int]) =~= before.to_set());
            }
        }
        i = i + 1;
    }
    assert(v@.subrange(0, v.len() as int) =~= v@);
    r
}

fn dedup_i64(v: &Vec<i64>) -> (r: Vec<i64>)
    ensures
        r@.no_duplicates(),
        r@.to_set() == v@.to_set(),
{
    let mut r: Vec<i64> = Vec::new();
    let mut i: usize = 0;
    while i < v.len()
        invariant
            i <= v.len(),
            r@.no_duplicates(),
            r@.to_set() == v@.subrange(0, i as int).to_set(),
        decreases v.len() - i,
    {
        let ghost before = r@;
        assert(v@.subrange(0, i + 1) =~= v@.subrange(0, i as int).push(v@[i as int]));
        if !contains_i64(&r, v[i]) {
            r.push(v[i]);
            proof { lemma_push_no_dup(before, v@[i as int]); }
        }
        proof {
            lemma_to_set_push(v@.subrange(0, i as int), v@[i as int]);
            if before.contains(v@[i as int]) {
                assert(before.to_set().insert(v@[i as int]) =~= before.to_set());
            }
        }
        i = i + 1;
    }
    assert(v@.subrange(0, v.len() as int) =~= v@);
    r
}

} // verus!
