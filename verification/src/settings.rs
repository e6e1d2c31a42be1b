//! Settings come from the command line, the environment and a file, in that
//! order.

use vstd::prelude::*;

use crate::text::{
    after, before, chars_of, char_lower, find_first, first_place, joined, lower, lower_all, lowered, spells, split,
    split_at, string_of, string_views, text, trim, trim_prefixes, trimmed, views, without_prefixes,
};
use crate::transport::reality::config::RealityConfigError;
use crate::transport::reality::keys::{key_in, parse_32_bytes, parse_32_bytes_raw, RealityKeyError};

verus! {

// ---------------------------------------------------------------------------
// Names and values
// ---------------------------------------------------------------------------

/// The value that a name has: the last one that it was given.
pub open spec fn value_in(pairs: Seq<(Seq<char>, Seq<char>)>, name: Seq<char>) -> Option<Seq<char>>
    decreases pairs.len(),
{
    if pairs.len() == 0 {
        None
    } else if pairs.last().0 == name {
        Some(pairs.last().1)
    } else {
        value_in(pairs.drop_last(), name)
    }
}

#[derive(Debug, Clone)]
pub struct Pairs {
    items: Vec<(String, String)>,
}

impl View for Pairs {
    type V = Seq<(Seq<char>, Seq<char>)>;

    closed spec fn view(&self) -> Seq<(Seq<char>, Seq<char>)> {
        Seq::new(self.items@.len(), |i: int| (self.items@[i].0@, self.items@[i].1@))
    }
}

pub open spec fn text_of(value: Option<String>) -> Option<Seq<char>> {
    match value {
        Some(value) => Some(value@),
        None => None,
    }
}

impl Pairs {
    pub fn new() -> (pairs: Self)
        ensures
            pairs@ == Seq::<(Seq<char>, Seq<char>)>::empty(),
    {
        let pairs = Pairs { items: Vec::new() };
        assert(pairs@ =~= Seq::<(Seq<char>, Seq<char>)>::empty());
        pairs
    }

    pub fn put(&mut self, name: String, value: String)
        ensures
            final(self)@ == old(self)@.push((name@, value@)),
    {
        self.items.push((name, value));
        assert(self@ =~= old(self)@.push((name@, value@)));
    }

    pub fn get(&self, name: &str) -> (value: Option<String>)
        ensures
            text_of(value) == value_in(self@, name@),
    {
        let wanted = chars_of(name);
        let mut n: usize = self.items.len();
        assert(self@.take(n as int) =~= self@);
        while n > 0
            invariant
                n <= self.items@.len() == self@.len(),
                wanted@ == name@,
                value_in(self@, name@) == value_in(self@.take(n as int), name@),
            decreases n,
        {
            assert(self@.take(n as int).drop_last() =~= self@.take(n - 1));
            if spells(&wanted, &self.items[n - 1].0) {
                return Some(text(&self.items[n - 1].1));
            }
            n = n - 1;
        }
        None
    }
}

// ---------------------------------------------------------------------------
// Files
// ---------------------------------------------------------------------------

/// `s` without `c` at its ends.
pub open spec fn strip_front(s: Seq<char>, c: char) -> Seq<char>
    decreases s.len(),
{
    if s.len() > 0 && s[0] == c {
        strip_front(s.skip(1), c)
    } else {
        s
    }
}

pub open spec fn strip_back(s: Seq<char>, c: char) -> Seq<char>
    decreases s.len(),
{
    if s.len() > 0 && s.last() == c {
        strip_back(s.drop_last(), c)
    } else {
        s
    }
}

pub open spec fn strip(s: Seq<char>, c: char) -> Seq<char> {
    strip_back(strip_front(s, c), c)
}

fn stripped(s: &[char], c: char) -> (out: &[char])
    ensures
        out@ == strip(s@, c),
{
    let mut from: usize = 0;
    assert(s@.skip(0) =~= s@);
    while from < s.len() && s[from] == c
        invariant
            from <= s.len(),
            strip_front(s@, c) == strip_front(s@.skip(from as int), c),
        decreases s.len() - from,
    {
        assert(s@.skip(from as int).skip(1) =~= s@.skip(from + 1));
        from = from + 1;
    }
    let front = after(s, from);
    let mut n: usize = front.len();
    assert(front@.take(n as int) =~= front@);
    while n > 0 && front[n - 1] == c
        invariant
            n <= front.len(),
            strip_back(front@, c) == strip_back(front@.take(n as int), c),
        decreases n,
    {
        assert(front@.take(n as int).drop_last() =~= front@.take(n - 1));
        n = n - 1;
    }
    before(front, n)
}

/// A name with small letters and underscores.
pub open spec fn plain_name(s: Seq<char>) -> Seq<char> {
    Seq::new(
        s.len(),
        |i: int|
            if s[i] == '-' {
                '_'
            } else {
                lower(s[i])
            },
    )
}

/// `payphone_`.
pub open spec fn name_prefix() -> Seq<char> {
    seq!['p', 'a', 'y', 'p', 'h', 'o', 'n', 'e', '_']
}

/// The name and the value on a line, if it has them. Comments and section
/// heads have none.
pub open spec fn pair_on(line: Seq<char>) -> Option<(Seq<char>, Seq<char>)> {
    let line = trim(line);
    if line.len() == 0 || line[0] == '#' || line[0] == '[' {
        None
    } else {
        match first_place(line, '=') {
            None => None,
            Some(at) => Some(
                (
                    plain_name(trim_prefixes(trim(line.take(at)), name_prefix())),
                    strip(strip(trim(line.skip(at + 1)), '"'), '\''),
                ),
            ),
        }
    }
}

pub open spec fn pairs_on(lines: Seq<Seq<char>>) -> Seq<(Seq<char>, Seq<char>)>
    decreases lines.len(),
{
    if lines.len() == 0 {
        Seq::empty()
    } else {
        let before = pairs_on(lines.drop_last());
        match pair_on(lines.last()) {
            Some(pair) => before.push(pair),
            None => before,
        }
    }
}

fn read_pair(line: &[char]) -> (pair: Option<(String, String)>)
    ensures
        match pair {
            Some((name, value)) => pair_on(line@) == Some((name@, value@)),
            None => pair_on(line@) is None,
        },
{
    let line = trimmed(line);
    if line.len() == 0 || line[0] == '#' || line[0] == '[' {
        return None;
    }
    match find_first(line, '=') {
        None => None,
        Some(at) => {
            let prefix: [char; 9] = ['p', 'a', 'y', 'p', 'h', 'o', 'n', 'e', '_'];
            assert(prefix@ =~= name_prefix());
            let bare = without_prefixes(trimmed(before(line, at)), &prefix);
            let mut name: Vec<char> = Vec::new();
            let mut i: usize = 0;
            while i < bare.len()
                invariant
                    i <= bare.len(),
                    name@ == plain_name(bare@).take(i as int),
                decreases bare.len() - i,
            {
                if bare[i] == '-' {
                    name.push('_');
                } else {
                    name.push(char_lower(bare[i]));
                }
                i = i + 1;
                assert(name@ =~= plain_name(bare@).take(i as int));
            }
            assert(name@ =~= plain_name(bare@));
            let value = stripped(stripped(trimmed(after(line, at + 1)), '"'), '\'');
            Some((string_of(&name), string_of(value)))
        },
    }
}

/// The settings in the text of a file.
pub fn load_kv_file(content: &str) -> (pairs: Pairs)
    ensures
        pairs@ == pairs_on(split(content@, seq!['\n'])),
{
    let newline: [char; 1] = ['\n'];
    assert(newline@ =~= seq!['\n']);
    let lines = split_at(&chars_of(content), &newline);
    let ghost all = views(lines@);
    let mut pairs = Pairs::new();
    let mut i: usize = 0;
    while i < lines.len()
        invariant
            i <= lines@.len(),
            all == views(lines@),
            pairs@ == pairs_on(all.take(i as int)),
        decreases lines@.len() - i,
    {
        proof {
            assert(all.take(i + 1).drop_last() =~= all.take(i as int));
            assert(all.take(i + 1).last() == lines@[i as int]@);
        }
        if let Some((name, value)) = read_pair(&lines[i]) {
            pairs.put(name, value);
        }
        i = i + 1;
    }
    assert(all.take(i as int) =~= all);
    pairs
}

// ---------------------------------------------------------------------------
// Choosing
// ---------------------------------------------------------------------------

/// Where a setting may stand.
#[derive(Clone, Copy)]
pub enum Place {
    Option(&'static str),
    Env(&'static str),
    File(&'static str),
}

/// The three sources of settings.
pub struct Sources {
    pub options: Pairs,
    pub env: Pairs,
    pub file: Pairs,
}

impl Sources {
    pub open spec fn at(&self, place: Place) -> Option<Seq<char>> {
        match place {
            Place::Option(name) => value_in(self.options@, name@),
            Place::Env(name) => value_in(self.env@, name@),
            Place::File(name) => value_in(self.file@, name@),
        }
    }

    /// The first value that is not empty.
    pub open spec fn picked(&self, places: Seq<Place>) -> Option<Seq<char>>
        decreases places.len(),
    {
        if places.len() == 0 {
            None
        } else {
            match self.at(places[0]) {
                Some(value) => if value.len() > 0 {
                    Some(value)
                } else {
                    self.picked(places.skip(1))
                },
                None => self.picked(places.skip(1)),
            }
        }
    }

    fn look(&self, place: Place) -> (value: Option<String>)
        ensures
            text_of(value) == self.at(place),
    {
        match place {
            Place::Option(name) => self.options.get(name),
            Place::Env(name) => self.env.get(name),
            Place::File(name) => self.file.get(name),
        }
    }

    pub fn pick(&self, places: &[Place]) -> (value: Option<String>)
        ensures
            text_of(value) == self.picked(places@),
            value matches Some(value) ==> value@.len() > 0,
    {
        let mut i: usize = 0;
        assert(places@.skip(0) =~= places@);
        while i < places.len()
            invariant
                i <= places.len(),
                self.picked(places@) == self.picked(places@.skip(i as int)),
            decreases places.len() - i,
        {
            assert(places@.skip(i as int).skip(1) =~= places@.skip(i + 1));
            if let Some(value) = self.look(places[i]) {
                if chars_of(&value).len() > 0 {
                    return Some(value);
                }
            }
            i = i + 1;
        }
        None
    }

    pub fn pick_or(&self, places: &[Place], default: &str) -> (value: String)
        ensures
            value@ == or_text(self.picked(places@), default@),
    {
        match self.pick(places) {
            Some(value) => value,
            None => text(default),
        }
    }
}

pub open spec fn or_text(value: Option<Seq<char>>, default: Seq<char>) -> Seq<char> {
    match value {
        Some(value) => value,
        None => default,
    }
}

/// `1`, `true`, `on` and `yes` are on; `0`, `false`, `off` and `no` are off,
/// in any case.
pub open spec fn flag_in(value: Seq<char>) -> Option<bool> {
    let value = lower_all(value);
    if value == "1"@ || value == "true"@ || value == "on"@ || value == "yes"@ {
        Some(true)
    } else if value == "0"@ || value == "false"@ || value == "off"@ || value == "no"@ {
        Some(false)
    } else {
        None
    }
}

pub fn parse_bool_flag(value: &str) -> (flag: Option<bool>)
    ensures
        flag == flag_in(value@),
{
    let value = lowered(&chars_of(value));
    if spells(&value, "1") || spells(&value, "true") || spells(&value, "on") || spells(&value, "yes") {
        return Some(true);
    }
    if spells(&value, "0") || spells(&value, "false") || spells(&value, "off") || spells(&value, "no") {
        return Some(false);
    }
    None
}

/// Whether a value is there and switches something on.
pub open spec fn is_on(value: Option<Seq<char>>) -> bool {
    value matches Some(value) && flag_in(value) == Some(true)
}

pub fn switched_on(value: &Option<String>) -> (yes: bool)
    ensures
        yes == is_on(text_of(*value)),
{
    match value {
        Some(value) => match parse_bool_flag(value) {
            Some(flag) => flag,
            None => false,
        },
        None => false,
    }
}

// ---------------------------------------------------------------------------
// The command line
// ---------------------------------------------------------------------------

#[derive(Clone, Copy, Debug, PartialEq, Eq, Structural)]
pub enum ArgFault {
    /// missing value for a long option
    MissingValue,
    /// missing value for a short option
    MissingShortValue,
    /// unknown long option
    UnknownOption,
    /// unknown short option
    UnknownShort,
    /// unexpected argument
    Unexpected,
    /// short option that takes a value must be last
    NotLast,
    /// expected on/off
    BadFlag,
}

/// What is wrong with the command line, and with which word of it.
pub struct ArgError {
    pub fault: ArgFault,
    pub word: String,
}

impl ArgError {
    pub open spec fn message_spec(&self) -> Seq<char> {
        match self.fault {
            ArgFault::MissingValue => "missing value for --"@ + self.word@,
            ArgFault::MissingShortValue => "missing value for -"@ + self.word@,
            ArgFault::UnknownOption => "unknown option --"@ + self.word@,
            ArgFault::UnknownShort => "unknown option -"@ + self.word@,
            ArgFault::Unexpected => "unexpected argument "@ + self.word@,
            ArgFault::NotLast => "short option that takes a value must be last"@,
            ArgFault::BadFlag => "expected on/off, got "@ + self.word@,
        }
    }

    pub fn message(&self) -> (message: String)
        ensures
            message@ == self.message_spec(),
    {
        match self.fault {
            ArgFault::MissingValue => joined("missing value for --", &self.word),
            ArgFault::MissingShortValue => joined("missing value for -", &self.word),
            ArgFault::UnknownOption => joined("unknown option --", &self.word),
            ArgFault::UnknownShort => joined("unknown option -", &self.word),
            ArgFault::Unexpected => joined("unexpected argument ", &self.word),
            ArgFault::NotLast => text("short option that takes a value must be last"),
            ArgFault::BadFlag => joined("expected on/off, got ", &self.word),
        }
    }
}

/// What the command line says.
pub struct Arguments {
    pub help: bool,
    pub dev: bool,
    /// Its own switch: staging for the server, the kill switch for the client.
    pub switch: bool,
    pub options: Pairs,
}

/// The same as a mathematical value.
pub ghost struct ArgumentsSpec {
    pub help: bool,
    pub dev: bool,
    pub switch: bool,
    pub options: Seq<(Seq<char>, Seq<char>)>,
}

impl View for Arguments {
    type V = ArgumentsSpec;

    open spec fn view(&self) -> ArgumentsSpec {
        ArgumentsSpec { help: self.help, dev: self.dev, switch: self.switch, options: self.options@ }
    }
}

/// The outcome of reading arguments.
pub type ArgSpec = Result<ArgumentsSpec, (ArgFault, Seq<char>)>;

pub open spec fn no_arguments() -> ArgumentsSpec {
    ArgumentsSpec { help: false, dev: false, switch: false, options: Seq::empty() }
}

/// Which words a program knows.
pub ghost struct Words {
    /// Options with a value.
    pub options: Seq<Seq<char>>,
    /// Options that are another name for one of those.
    pub aliases: Seq<(Seq<char>, Seq<char>)>,
    /// The name of its switch.
    pub switch: Seq<char>,
    /// Whether the switch has to say on or off.
    pub strict: bool,
    /// Short options with a value, and the options that they stand for.
    pub shorts: Seq<(char, Seq<char>)>,
    /// Whether short options may stand together.
    pub clusters: bool,
}

/// The option that a name stands for.
pub open spec fn option_for(words: Words, name: Seq<char>) -> Option<Seq<char>> {
    if words.options.contains(name) {
        Some(name)
    } else {
        value_in(words.aliases, name)
    }
}

/// The arguments with one long option more.
pub open spec fn with_long(words: Words, args: ArgumentsSpec, name: Seq<char>, value: Seq<char>) -> ArgSpec {
    if name == words.switch {
        match flag_in(value) {
            Some(flag) => Ok(ArgumentsSpec { switch: flag, ..args }),
            None => if words.strict {
                Err((ArgFault::BadFlag, lower_all(value)))
            } else {
                Ok(ArgumentsSpec { switch: false, ..args })
            },
        }
    } else {
        match option_for(words, name) {
            Some(option) => Ok(ArgumentsSpec { options: args.options.push((option, value)), ..args }),
            None => Err((ArgFault::UnknownOption, name)),
        }
    }
}

pub open spec fn short_for(shorts: Seq<(char, Seq<char>)>, c: char) -> Option<Seq<char>>
    decreases shorts.len(),
{
    if shorts.len() == 0 {
        None
    } else if shorts[0].0 == c {
        Some(shorts[0].1)
    } else {
        short_for(shorts.skip(1), c)
    }
}

/// The arguments after a run of short options, and whether the last of them
/// took the next word for its value.
pub open spec fn with_shorts(
    words: Words,
    args: ArgumentsSpec,
    flags: Seq<char>,
    next: Option<Seq<char>>,
) -> Result<(ArgumentsSpec, bool), (ArgFault, Seq<char>)>
    decreases flags.len(),
{
    if flags.len() == 0 {
        Ok((args, false))
    } else if flags[0] == 'h' {
        with_shorts(words, ArgumentsSpec { help: true, ..args }, flags.skip(1), next)
    } else {
        match short_for(words.shorts, flags[0]) {
            None => Err((ArgFault::UnknownShort, flags.take(1))),
            Some(option) => if flags.len() > 1 {
                Err((ArgFault::NotLast, flags.take(1)))
            } else {
                match next {
                    None => Err((ArgFault::MissingShortValue, flags)),
                    Some(value) => Ok(
                        (ArgumentsSpec { options: args.options.push((option, value)), ..args }, true),
                    ),
                }
            },
        }
    }
}

/// What a word and the one after it make of the arguments, and how many of the
/// two are used up.
pub open spec fn with_word(
    words: Words,
    args: ArgumentsSpec,
    word: Seq<char>,
    next: Option<Seq<char>>,
) -> Result<(ArgumentsSpec, bool), (ArgFault, Seq<char>)> {
    if word.len() >= 2 && word[0] == '-' && word[1] == '-' {
        let flag = word.skip(2);
        match first_place(flag, '=') {
            Some(at) => match with_long(words, args, flag.take(at), flag.skip(at + 1)) {
                Ok(args) => Ok((args, false)),
                Err(error) => Err(error),
            },
            None => if flag == "help"@ {
                Ok((ArgumentsSpec { help: true, ..args }, false))
            } else if flag == "dev"@ {
                Ok((ArgumentsSpec { dev: true, ..args }, false))
            } else if flag == words.switch {
                Ok((ArgumentsSpec { switch: true, ..args }, false))
            } else {
                match next {
                    None => Err((ArgFault::MissingValue, flag)),
                    Some(value) => match with_long(words, args, flag, value) {
                        Ok(args) => Ok((args, true)),
                        Err(error) => Err(error),
                    },
                }
            },
        }
    } else if word.len() >= 1 && word[0] == '-' && (words.clusters || (word.len() == 2 && (word[1] == 'h' || short_for(
        words.shorts,
        word[1],
    ) is Some))) {
        with_shorts(words, args, word.skip(1), next)
    } else {
        Err((ArgFault::Unexpected, word))
    }
}

/// Reads all words.
pub open spec fn with_words(words: Words, args: ArgumentsSpec, rest: Seq<Seq<char>>) -> ArgSpec
    decreases rest.len(),
{
    if rest.len() == 0 {
        Ok(args)
    } else {
        let next = if rest.len() > 1 {
            Some(rest[1])
        } else {
            None
        };
        match with_word(words, args, rest[0], next) {
            Err(error) => Err(error),
            Ok((args, true)) => with_words(
                words,
                args,
                rest.skip(
                    if rest.len() > 1 {
                        2
                    } else {
                        1
                    },
                ),
            ),
            Ok((args, false)) => with_words(words, args, rest.skip(1)),
        }
    }
}

/// The words of a program, to look up.
pub struct Vocabulary {
    pub options: Vec<&'static str>,
    pub aliases: Vec<(&'static str, &'static str)>,
    pub switch: &'static str,
    pub strict: bool,
    pub shorts: Vec<(char, &'static str)>,
    pub clusters: bool,
}

impl View for Vocabulary {
    type V = Words;

    open spec fn view(&self) -> Words {
        Words {
            options: Seq::new(self.options@.len(), |i: int| self.options@[i]@),
            aliases: Seq::new(self.aliases@.len(), |i: int| (self.aliases@[i].0@, self.aliases@[i].1@)),
            switch: self.switch@,
            strict: self.strict,
            shorts: Seq::new(self.shorts@.len(), |i: int| (self.shorts@[i].0, self.shorts@[i].1@)),
            clusters: self.clusters,
        }
    }
}

/// What an outcome is as a mathematical value.
pub open spec fn outcome<T>(error: ArgError) -> Result<T, (ArgFault, Seq<char>)> {
    Err((error.fault, error.word@))
}

impl Vocabulary {
    fn find_option(&self, name: &[char]) -> (option: Option<String>)
        ensures
            text_of(option) == option_for(self@, name@),
    {
        let mut i: usize = 0;
        while i < self.options.len()
            invariant
                i <= self.options@.len(),
                forall|j: int| 0 <= j < i ==> self@.options[j] != name@,
            decreases self.options@.len() - i,
        {
            if spells(name, self.options[i]) {
                assert(self@.options[i as int] == name@);
                return Some(string_of(name));
            }
            i = i + 1;
        }
        assert(!self@.options.contains(name@));
        let mut n: usize = self.aliases.len();
        let ghost aliases = self@.aliases;
        assert(aliases.take(n as int) =~= aliases);
        while n > 0
            invariant
                n <= self.aliases@.len(),
                aliases == self@.aliases,
                !self@.options.contains(name@),
                value_in(aliases, name@) == value_in(aliases.take(n as int), name@),
            decreases n,
        {
            assert(aliases.take(n as int).drop_last() =~= aliases.take(n - 1));
            if spells(name, self.aliases[n - 1].0) {
                return Some(text(self.aliases[n - 1].1));
            }
            n = n - 1;
        }
        None
    }

    fn find_short(&self, c: char) -> (option: Option<String>)
        ensures
            text_of(option) == short_for(self@.shorts, c),
    {
        let ghost shorts = self@.shorts;
        let mut i: usize = 0;
        assert(shorts.skip(0) =~= shorts);
        while i < self.shorts.len()
            invariant
                i <= self.shorts@.len(),
                shorts == self@.shorts,
                short_for(shorts, c) == short_for(shorts.skip(i as int), c),
            decreases self.shorts@.len() - i,
        {
            assert(shorts.skip(i as int).skip(1) =~= shorts.skip(i + 1));
            if self.shorts[i].0 == c {
                return Some(text(self.shorts[i].1));
            }
            i = i + 1;
        }
        None
    }

    fn set_long(&self, args: &mut Arguments, name: &[char], value: &[char]) -> (out: Result<(), ArgError>)
        ensures
            match out {
                Ok(_) => with_long(self@, old(args)@, name@, value@) == Ok::<ArgumentsSpec, (ArgFault, Seq<char>)>(
                    final(args)@,
                ),
                Err(error) => with_long(self@, old(args)@, name@, value@) == outcome::<ArgumentsSpec>(error),
            },
    {
        if spells(name, self.switch) {
            match parse_bool_flag(&string_of(value)) {
                Some(flag) => {
                    args.switch = flag;
                },
                None => {
                    if self.strict {
                        return Err(ArgError { fault: ArgFault::BadFlag, word: string_of(&lowered(value)) });
                    }
                    args.switch = false;
                },
            }
            return Ok(());
        }
        match self.find_option(name) {
            Some(option) => {
                args.options.put(option, string_of(value));
                Ok(())
            },
            None => Err(ArgError { fault: ArgFault::UnknownOption, word: string_of(name) }),
        }
    }

    fn set_shorts(
        &self,
        args: &mut Arguments,
        flags: &[char],
        next: Option<&Vec<char>>,
    ) -> (out: Result<bool, ArgError>)
        ensures
            ({
                let value = match next {
                    Some(next) => Some(next@),
                    None => None,
                };
                match out {
                    Ok(used) => with_shorts(self@, old(args)@, flags@, value) == Ok::<
                        (ArgumentsSpec, bool),
                        (ArgFault, Seq<char>),
                    >((final(args)@, used)),
                    Err(error) => with_shorts(self@, old(args)@, flags@, value) == outcome::<(ArgumentsSpec, bool)>(
                        error,
                    ),
                }
            }),
    {
        let ghost value = match next {
            Some(next) => Some(next@),
            None => None,
        };
        let mut i: usize = 0;
        assert(flags@.skip(0) =~= flags@);
        while i < flags.len()
            invariant
                i <= flags.len(),
                value == (match next {
                    Some(next) => Some(next@),
                    None => None,
                }),
                with_shorts(self@, old(args)@, flags@, value) == with_shorts(
                    self@,
                    args@,
                    flags@.skip(i as int),
                    value,
                ),
            decreases flags.len() - i,
        {
            let ghost rest = flags@.skip(i as int);
            assert(rest.skip(1) =~= flags@.skip(i + 1));
            let c: char = flags[i];
            if c == 'h' {
                args.help = true;
                i = i + 1;
            } else {
                let mut word: Vec<char> = Vec::new();
                word.push(c);
                assert(word@ =~= rest.take(1));
                match self.find_short(c) {
                    None => return Err(ArgError { fault: ArgFault::UnknownShort, word: string_of(&word) }),
                    Some(option) => {
                        if flags.len() - i > 1 {
                            return Err(ArgError { fault: ArgFault::NotLast, word: string_of(&word) });
                        }
                        assert(word@ =~= rest);
                        match next {
                            None => return Err(
                                ArgError { fault: ArgFault::MissingShortValue, word: string_of(&word) },
                            ),
                            Some(next) => {
                                args.options.put(option, string_of(next));
                                return Ok(true);
                            },
                        }
                    },
                }
            }
        }
        Ok(false)
    }

    fn set_word(&self, args: &mut Arguments, word: &[char], next: Option<&Vec<char>>) -> (out: Result<bool, ArgError>)
        ensures
            ({
                let value = match next {
                    Some(next) => Some(next@),
                    None => None,
                };
                match out {
                    Ok(used) => with_word(self@, old(args)@, word@, value) == Ok::<
                        (ArgumentsSpec, bool),
                        (ArgFault, Seq<char>),
                    >((final(args)@, used)),
                    Err(error) => with_word(self@, old(args)@, word@, value) == outcome::<(ArgumentsSpec, bool)>(error),
                }
            }),
    {
        if word.len() >= 2 && word[0] == '-' && word[1] == '-' {
            let flag = after(word, 2);
            if let Some(at) = find_first(flag, '=') {
                return match self.set_long(args, before(flag, at), after(flag, at + 1)) {
                    Ok(_) => Ok(false),
                    Err(error) => Err(error),
                };
            }
            if spells(flag, "help") {
                args.help = true;
                return Ok(false);
            }
            if spells(flag, "dev") {
                args.dev = true;
                return Ok(false);
            }
            if spells(flag, self.switch) {
                args.switch = true;
                return Ok(false);
            }
            return match next {
                None => Err(ArgError { fault: ArgFault::MissingValue, word: string_of(flag) }),
                Some(value) => match self.set_long(args, flag, value) {
                    Ok(_) => Ok(true),
                    Err(error) => Err(error),
                },
            };
        }
        if word.len() >= 1 && word[0] == '-' && (self.clusters || (word.len() == 2 && (word[1] == 'h'
            || self.find_short(word[1]).is_some()))) {
            return self.set_shorts(args, after(word, 1), next);
        }
        Err(ArgError { fault: ArgFault::Unexpected, word: string_of(word) })
    }

    /// Reads the words after the program's name.
    pub fn read(&self, input: &Vec<String>) -> (out: Result<Arguments, ArgError>)
        ensures
            match out {
                Ok(args) => with_words(self@, no_arguments(), string_views(input@)) == Ok::<
                    ArgumentsSpec,
                    (ArgFault, Seq<char>),
                >(args@),
                Err(error) => with_words(self@, no_arguments(), string_views(input@)) == outcome::<
                    ArgumentsSpec,
                >(error),
            },
    {
        let mut args = Arguments { help: false, dev: false, switch: false, options: Pairs::new() };
        let ghost all = string_views(input@);
        let mut i: usize = 0;
        assert(all.skip(0) =~= all);
        while i < input.len()
            invariant
                i <= input@.len(),
                all == string_views(input@),
                with_words(self@, no_arguments(), all) == with_words(self@, args@, all.skip(i as int)),
            decreases input@.len() - i,
        {
            let ghost rest = all.skip(i as int);
            let word = chars_of(&input[i]);
            let next: Option<Vec<char>> = if input.len() - i > 1 {
                Some(chars_of(&input[i + 1]))
            } else {
                None
            };
            proof {
                assert(rest[0] == word@);
                assert(input@.len() - i > 1 ==> rest[1] == input@[i + 1]@);
                assert(rest.skip(1) =~= all.skip(i + 1));
                assert(input@.len() - i > 1 ==> rest.skip(2) =~= all.skip(i + 2));
            }
            let used = match &next {
                Some(value) => self.set_word(&mut args, &word, Some(value)),
                None => self.set_word(&mut args, &word, None),
            };
            match used {
                Err(error) => return Err(error),
                Ok(used) => {
                    if used && input.len() - i > 1 {
                        i = i + 2;
                    } else {
                        i = i + 1;
                    }
                },
            }
        }
        Ok(args)
    }
}

// ---------------------------------------------------------------------------
// What the server and the client have in common
// ---------------------------------------------------------------------------

#[derive(Clone, Copy, Debug, PartialEq, Eq, Structural)]
pub enum SettingsError {
    /// PAYPHONE_OBFS_PSK is not set; pass --psk or put it in .env / payphone.toml
    NoPsk,
    /// PAYPHONE_REALITY=on requires --reality-dest / PAYPHONE_REALITY_DEST
    NoRealityDest,
    /// PAYPHONE_REALITY=on requires --reality-short-id / PAYPHONE_REALITY_SHORT_ID
    NoRealityShortId,
    /// REALITY public key is set; pass --reality-short-id / PAYPHONE_REALITY_SHORT_ID
    NoClientShortId,
    /// unknown transport; use quic or tls
    UnknownTransport,
    RealityKey(RealityKeyError),
    Reality(RealityConfigError),
}

impl SettingsError {
    pub open spec fn message_spec(&self) -> Seq<char> {
        match self {
            SettingsError::NoPsk => "PAYPHONE_OBFS_PSK is not set; pass --psk or put it in .env / payphone.toml"@,
            SettingsError::NoRealityDest => "PAYPHONE_REALITY=on requires --reality-dest / PAYPHONE_REALITY_DEST"@,
            SettingsError::NoRealityShortId => "PAYPHONE_REALITY=on requires --reality-short-id / PAYPHONE_REALITY_SHORT_ID"@,
            SettingsError::NoClientShortId => "REALITY public key is set; pass --reality-short-id / PAYPHONE_REALITY_SHORT_ID"@,
            SettingsError::UnknownTransport => "unknown transport; use quic or tls"@,
            SettingsError::RealityKey(error) => error.message_spec(),
            SettingsError::Reality(error) => error.message_spec(),
        }
    }

    /// The error in words.
    pub fn message(&self) -> (message: String)
        ensures
            message@ == self.message_spec(),
    {
        match self {
            SettingsError::NoPsk => text("PAYPHONE_OBFS_PSK is not set; pass --psk or put it in .env / payphone.toml"),
            SettingsError::NoRealityDest => text("PAYPHONE_REALITY=on requires --reality-dest / PAYPHONE_REALITY_DEST"),
            SettingsError::NoRealityShortId => text("PAYPHONE_REALITY=on requires --reality-short-id / PAYPHONE_REALITY_SHORT_ID"),
            SettingsError::NoClientShortId => text("REALITY public key is set; pass --reality-short-id / PAYPHONE_REALITY_SHORT_ID"),
            SettingsError::UnknownTransport => text("unknown transport; use quic or tls"),
            SettingsError::RealityKey(error) => error.message(),
            SettingsError::Reality(error) => error.message(),
        }
    }
}

pub open spec fn psk_places() -> Seq<Place> {
    seq![Place::Option("psk"), Place::Env("PAYPHONE_OBFS_PSK"), Place::File("psk"), Place::File("obfs_psk")]
}

/// A setting with one name in each source.
pub open spec fn places(option: &'static str, env: &'static str, file: &'static str) -> Seq<Place> {
    seq![Place::Option(option), Place::Env(env), Place::File(file)]
}

pub fn pick_psk(sources: &Sources) -> (psk: Option<String>)
    ensures
        text_of(psk) == sources.picked(psk_places()),
        psk matches Some(psk) ==> psk@.len() > 0,
{
    let list = [
        Place::Option("psk"),
        Place::Env("PAYPHONE_OBFS_PSK"),
        Place::File("psk"),
        Place::File("obfs_psk"),
    ];
    assert(list@ =~= psk_places());
    sources.pick(&list)
}

pub fn pick_three(
    sources: &Sources,
    option: &'static str,
    env: &'static str,
    file: &'static str,
) -> (value: Option<String>)
    ensures
        text_of(value) == sources.picked(places(option, env, file)),
        value matches Some(value) ==> value@.len() > 0,
{
    let list = [Place::Option(option), Place::Env(env), Place::File(file)];
    assert(list@ =~= places(option, env, file));
    sources.pick(&list)
}

pub fn pick_three_or(
    sources: &Sources,
    option: &'static str,
    env: &'static str,
    file: &'static str,
    default: &str,
) -> (value: String)
    ensures
        value@ == or_text(sources.picked(places(option, env, file)), default@),
{
    match pick_three(sources, option, env, file) {
        Some(value) => value,
        None => text(default),
    }
}

/// The key that a setting gives: what is in the file, where it names one.
pub open spec fn key_given(key: Seq<char>, file: Option<Seq<u8>>) -> Result<Seq<u8>, RealityKeyError> {
    if trim(key).len() == 0 {
        Err(RealityKeyError::Empty)
    } else {
        match file {
            Some(bytes) => key_in(bytes),
            None => key_in(vstd::utf8::encode_utf8(trim(key))),
        }
    }
}

/// Reads a key; `file` is what is in the file of that name, if there is one.
pub fn take_key(key: &str, file: Option<&Vec<u8>>) -> (out: Result<[u8; 32], RealityKeyError>)
    ensures
        ({
            let bytes = match file {
                Some(bytes) => Some(bytes@),
                None => None,
            };
            match out {
                Ok(out) => key_given(key@, bytes) == Ok::<Seq<u8>, RealityKeyError>(out@),
                Err(error) => key_given(key@, bytes) == Err::<Seq<u8>, RealityKeyError>(error),
            }
        }),
{
    let chars = chars_of(key);
    if trimmed(&chars).len() == 0 {
        return Err(RealityKeyError::Empty);
    }
    match file {
        Some(bytes) => parse_32_bytes_raw(bytes),
        None => parse_32_bytes(key),
    }
}

/// What is done about the settings file.
#[derive(Clone, Copy, Debug, PartialEq, Eq, Structural)]
pub enum FileStep {
    Read,
    /// There are no settings in a file.
    Skip,
    /// The file that the command line names is not there.
    Missing,
}

/// A file that is not there matters only where the command line names it.
pub fn file_step(named: bool, is_there: bool) -> (step: FileStep)
    ensures
        step == (if is_there {
            FileStep::Read
        } else if named {
            FileStep::Missing
        } else {
            FileStep::Skip
        }),
{
    if is_there {
        FileStep::Read
    } else if named {
        FileStep::Missing
    } else {
        FileStep::Skip
    }
}

} // verus!
