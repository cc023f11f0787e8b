//! The configuration of the BonDriver: where tunelithd is, and the tuning spaces and
//! their channels, which Tunelith has no list of.

use vstd::prelude::*;

use crate::error::Error;
use crate::types::{Polarization, StreamId, System, TuneParams};

verus! {

/// The configuration as it is written down.
pub struct File {
    pub socket: Option<String>,
    pub lnb: bool,
    pub space: Vec<SpaceEntry>,
}

/// A tuning space as it is written down.
pub struct SpaceEntry {
    pub name: String,
    pub system: System,
    pub channel: Vec<ChannelEntry>,
}

/// A channel as it is written down.
pub struct ChannelEntry {
    pub name: String,
    /// In kHz; for a satellite, before the LNB converts it.
    pub frequency: u32,
    pub stream_id: Option<u16>,
    pub polarization: Option<Polarization>,
}

pub struct Config {
    /// The socket of tunelithd; that of the user's or the system's if `None`.
    pub socket: Option<String>,
    /// Powers the LNB of the antenna.
    pub lnb: bool,
    pub spaces: Vec<Space>,
}

/// The names are NUL-terminated UTF-16, as the host takes them.
pub struct Space {
    pub name: Vec<u16>,
    pub channels: Vec<Channel>,
}

pub struct Channel {
    pub name: Vec<u16>,
    pub params: TuneParams,
}

/// A character in UTF-16: itself, or two surrogates.
pub open spec fn utf16_of(c: char) -> Seq<u16> {
    let n = c as nat;
    if n < 0x1_0000 {
        seq![n as u16]
    } else {
        seq![
            (0xd800 + (n - 0x1_0000) / 0x400) as u16,
            (0xdc00 + (n - 0x1_0000) % 0x400) as u16,
        ]
    }
}

/// A text in UTF-16.
pub open spec fn utf16(s: Seq<char>) -> Seq<u16>
    decreases s.len(),
{
    if s.len() == 0 {
        Seq::empty()
    } else {
        utf16(s.drop_last()) + utf16_of(s.last())
    }
}

/// A text as NUL-terminated UTF-16.
pub fn wide(s: &str) -> (r: Vec<u16>)
    ensures
        r@ == utf16(s@).push(0),
{
    let n: usize = s.unicode_len();
    let mut out: Vec<u16> = Vec::new();
    let mut i: usize = 0;
    while i < n
        invariant
            i <= n,
            n == s@.len(),
            out@ == utf16(s@.take(i as int)),
        decreases n - i,
    {
        let c: u32 = s.get_char(i) as u32;
        let ghost before = out@;
        proof {
            assert(s@.take(i + 1).drop_last() =~= s@.take(i as int));
            assert(s@.take(i + 1).last() == s@[i as int]);
        }
        if c < 0x1_0000 {
            out.push(c as u16);
        } else {
            out.push((0xd800 + (c - 0x1_0000) / 0x400) as u16);
            out.push((0xdc00 + (c - 0x1_0000) % 0x400) as u16);
        }
        assert(out@ =~= before + utf16_of(s@[i as int]));
        i = i + 1;
    }
    assert(s@.take(i as int) =~= s@);
    out.push(0);
    out
}

/// What a channel tunes to.
pub open spec fn entry_params(system: System, entry: ChannelEntry) -> TuneParams {
    TuneParams {
        system,
        frequency_khz: entry.frequency,
        stream_id: match entry.stream_id {
            Some(id) => Some(StreamId(id)),
            None => None,
        },
        polarization: entry.polarization,
    }
}

/// Whether a channel is one written down.
pub open spec fn is_channel(channel: Channel, system: System, entry: ChannelEntry) -> bool {
    &&& channel.name@ == utf16(entry.name@).push(0)
    &&& channel.params == entry_params(system, entry)
}

/// Whether a space is one written down.
pub open spec fn is_space(space: Space, entry: SpaceEntry) -> bool {
    &&& space.name@ == utf16(entry.name@).push(0)
    &&& space.channels@.len() == entry.channel@.len()
    &&& forall|j: int|
        0 <= j < entry.channel@.len() ==> is_channel(
            #[trigger] space.channels@[j],
            entry.system,
            entry.channel@[j],
        )
}

/// Whether the first `n` channels of a space are valid.
pub open spec fn channels_valid(entry: SpaceEntry, n: int) -> bool {
    forall|j: int|
        0 <= j < n ==> entry_params(entry.system, #[trigger] entry.channel@[j]).valid()
}

/// Whether the first `n` spaces are valid.
pub open spec fn spaces_valid(file: File, n: int) -> bool {
    forall|i: int|
        0 <= i < n ==> channels_valid(#[trigger] file.space@[i], file.space@[i].channel@.len() as int)
}

/// What is wrong with a channel, in words.
pub open spec fn complaint(space: Seq<char>, entry: ChannelEntry, system: System) -> Seq<char> {
    space + " / "@ + entry.name@ + ": "@ + if system.satellite() {
        "invalid tuning parameters: "@ + "a satellite stream needs a stream id"@
    } else {
        "invalid tuning parameters: "@ + "ISDB-T takes no stream id"@
    }
}

/// Whether words tell of the first channel that is not valid.
pub open spec fn complains(file: File, words: Seq<char>) -> bool {
    exists|i: int, j: int|
        #![trigger file.space@[i].channel@[j]]
        {
            &&& 0 <= i < file.space@.len()
            &&& 0 <= j < file.space@[i].channel@.len()
            &&& spaces_valid(file, i)
            &&& channels_valid(file.space@[i], j)
            &&& !entry_params(file.space@[i].system, file.space@[i].channel@[j]).valid()
            &&& words == complaint(
                file.space@[i].name@,
                file.space@[i].channel@[j],
                file.space@[i].system,
            )
        }
}

fn channels_of(entry: &SpaceEntry) -> (r: Result<Vec<Channel>, (usize, Error)>)
    ensures
        match r {
            Ok(channels) => {
                &&& channels_valid(*entry, entry.channel@.len() as int)
                &&& channels@.len() == entry.channel@.len()
                &&& forall|j: int|
                    0 <= j < channels@.len() ==> is_channel(
                        #[trigger] channels@[j],
                        entry.system,
                        entry.channel@[j],
                    )
            },
            Err((j, e)) => {
                &&& j < entry.channel@.len()
                &&& channels_valid(*entry, j as int)
                &&& !entry_params(entry.system, entry.channel@[j as int]).valid()
                &&& e.text() == if entry.system.satellite() {
                    "invalid tuning parameters: "@ + "a satellite stream needs a stream id"@
                } else {
                    "invalid tuning parameters: "@ + "ISDB-T takes no stream id"@
                }
            },
        },
{
    let mut channels: Vec<Channel> = Vec::new();
    let mut j: usize = 0;
    while j < entry.channel.len()
        invariant
            j <= entry.channel@.len(),
            channels@.len() == j,
            channels_valid(*entry, j as int),
            forall|k: int|
                0 <= k < j ==> is_channel(
                    #[trigger] channels@[k],
                    entry.system,
                    entry.channel@[k],
                ),
        decreases entry.channel@.len() - j,
    {
        let channel: &ChannelEntry = &entry.channel[j];
        let params: TuneParams = TuneParams {
            system: entry.system,
            frequency_khz: channel.frequency,
            stream_id: match channel.stream_id {
                Some(id) => Some(StreamId(id)),
                None => None,
            },
            polarization: channel.polarization,
        };
        match params.validate() {
            Ok(_) => {},
            Err(e) => return Err((j, e)),
        }
        channels.push(Channel { name: wide(channel.name.as_str()), params });
        j = j + 1;
    }
    Ok(channels)
}

impl Config {
    /// The configuration written down, if every channel of it is valid; otherwise
    /// what is wrong with the first that is not.
    pub fn parse(file: &File) -> (r: Result<Config, String>)
        ensures
            match r {
                Ok(config) => {
                    &&& spaces_valid(*file, file.space@.len() as int)
                    &&& config.socket == file.socket
                    &&& config.lnb == file.lnb
                    &&& config.spaces@.len() == file.space@.len()
                    &&& forall|i: int|
                        0 <= i < file.space@.len() ==> is_space(
                            #[trigger] config.spaces@[i],
                            file.space@[i],
                        )
                },
                Err(words) => complains(*file, words@),
            },
    {
        let mut spaces: Vec<Space> = Vec::new();
        let mut i: usize = 0;
        while i < file.space.len()
            invariant
                i <= file.space@.len(),
                spaces@.len() == i,
                spaces_valid(*file, i as int),
                forall|k: int|
                    0 <= k < i ==> is_space(#[trigger] spaces@[k], file.space@[k]),
            decreases file.space@.len() - i,
        {
            let entry: &SpaceEntry = &file.space[i];
            match channels_of(entry) {
                Ok(channels) => {
                    let space: Space = Space { name: wide(entry.name.as_str()), channels };
                    assert(is_space(space, *entry));
                    spaces.push(space);
                },
                Err((j, e)) => {
                    let channel: &ChannelEntry = &entry.channel[j];
                    let words: String = entry.name.clone().concat(" / ").concat(
                        channel.name.as_str(),
                    ).concat(": ").concat(e.message().as_str());
                    proof {
                        assert(file.space@[i as int].channel@[j as int] == *channel);
                        assert(words@ == complaint(entry.name@, *channel, entry.system));
                        assert(complains(*file, words@));
                    }
                    return Err(words);
                },
            }
            i = i + 1;
        }
        let socket: Option<String> = match &file.socket {
            Some(socket) => Some(socket.clone()),
            None => None,
        };
        Ok(Config { socket, lnb: file.lnb, spaces })
    }

    /// The channel of a space, if there are both.
    pub open spec fn at(self, space: u32, channel: u32) -> Option<Channel> {
        if space < self.spaces@.len() && channel < self.spaces@[space as int].channels@.len() {
            Some(self.spaces@[space as int].channels@[channel as int])
        } else {
            None
        }
    }

    /// The channel of a space, if there are both.
    pub fn channel(&self, space: u32, channel: u32) -> (r: Option<&Channel>)
        ensures
            match self.at(space, channel) {
                Some(c) => r matches Some(found) && *found == c,
                None => r is None,
            },
    {
        let i: usize = space as usize;
        if i < self.spaces.len() {
            let j: usize = channel as usize;
            if j < self.spaces[i].channels.len() {
                return Some(&self.spaces[i].channels[j]);
            }
        }
        None
    }

    /// A space, if there is one.
    pub fn space(&self, space: u32) -> (r: Option<&Space>)
        ensures
            if space < self.spaces@.len() {
                r matches Some(found) && *found == self.spaces@[space as int]
            } else {
                r is None
            },
    {
        let i: usize = space as usize;
        if i < self.spaces.len() {
            Some(&self.spaces[i])
        } else {
            None
        }
    }
}

/// Every channel of a configuration can be tuned to.
pub proof fn channels_are_valid(file: File, config: Config, space: u32, channel: u32)
    requires
        spaces_valid(file, file.space@.len() as int),
        config.spaces@.len() == file.space@.len(),
        forall|i: int|
            0 <= i < file.space@.len() ==> is_space(#[trigger] config.spaces@[i], file.space@[i]),
    ensures
        config.at(space, channel) matches Some(c) ==> c.params.valid(),
{
    if config.at(space, channel) is Some {
        let entry = file.space@[space as int];
        assert(is_space(config.spaces@[space as int], entry));
        assert(is_channel(
            config.spaces@[space as int].channels@[channel as int],
            entry.system,
            entry.channel@[channel as int],
        ));
        assert(channels_valid(entry, entry.channel@.len() as int));
    }
}

/// A character in UTF-16 is itself if it fits 16 bits, or else a high and a low surrogate
/// that make it, ten bits each.
pub proof fn surrogates_make_the_character(c: char)
    ensures
        ({
            let units = utf16_of(c);
            if (c as u32) < 0x1_0000 {
                units.len() == 1 && units[0] == c as u32
            } else {
                &&& units.len() == 2
                &&& 0xd800 <= units[0] < 0xdc00
                &&& 0xdc00 <= units[1] < 0xe000
                &&& 0x1_0000 + (units[0] - 0xd800) * 0x400 + (units[1] - 0xdc00) == c as u32
            }
        }),
{
}

/// A text in UTF-16 is its characters in UTF-16, one after the other.
pub proof fn characters_follow_each_other(s: Seq<char>, c: char, rest: Seq<char>)
    ensures
        utf16(s + seq![c] + rest) == utf16(s) + utf16_of(c) + utf16(rest),
        utf16(Seq::empty()).len() == 0,
    decreases rest.len(),
{
    let all = s + seq![c] + rest;
    if rest.len() == 0 {
        assert(all.drop_last() =~= s);
        assert(all.last() == c);
        assert(utf16(all) =~= utf16(s) + utf16_of(c) + utf16(rest));
    } else {
        characters_follow_each_other(s, c, rest.drop_last());
        assert(all.drop_last() =~= s + seq![c] + rest.drop_last());
        assert(all.last() == rest.last());
        assert(utf16(all) =~= utf16(s) + utf16_of(c) + utf16(rest));
    }
}

/// What is written down for a channel is what it tunes to.
pub proof fn entries_are_tuned_to(system: System, entry: ChannelEntry)
    ensures
        ({
            let params = entry_params(system, entry);
            &&& params.system == system
            &&& params.frequency_khz == entry.frequency
            &&& params.polarization == entry.polarization
            &&& params.stream_id is Some <==> entry.stream_id is Some
            &&& entry.stream_id matches Some(id) ==> params.stream_id == Some(StreamId(id))
        }),
{
}

} // verus!
