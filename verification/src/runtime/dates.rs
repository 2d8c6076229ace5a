//! The tests on dates at run time.

use vstd::prelude::*;
use vstd::string::StrSliceExecFns;
use vstd::utf8::encode_utf8;
use crate::compiler::predicates::{DatePart, TestCurrentDate, TestDate, Zone};
use crate::mailto::texts;
use crate::runtime::comparator::MatchType;
use crate::runtime::context::Context;
use crate::runtime::date::{
    date_at, date_in, day_of_week, from_timestamp, in_zone, parse_date, rfc3339_of, rfc822_of,
    timestamp_of, to_rfc3339, to_rfc822, to_timestamp, to_timezone, weekday_of, zone_sign,
    DateTime,
};
use crate::runtime::evaluate::{
    count_meets, header_name_of, matched_from, parse_header_name, test_count,
};
use crate::runtime::glob::selected;
use crate::runtime::headers::candidates;
use crate::runtime::matching::{Numbers, Search};
use crate::runtime::message::{Header, HeaderValue, Message};
use crate::text::{decimal, padded, push_char, push_decimal, push_padded, push_signed, signed_decimal};

verus! {

/// The date if its fields are in their ranges.
pub open spec fn valid_date(date: Option<DateTime>) -> Option<DateTime> {
    match date {
        Some(d) => if d.valid() {
            Some(d)
        } else {
            None
        },
        None => None,
    }
}

/// The valid date of a header: the one that the parser kept; else, for a
/// header of the message, the one read anew from its raw bytes; else, for a
/// header that a script has added, the one read from its text.
pub open spec fn found_date(message: Message, header: Header) -> Option<DateTime> {
    match header.value {
        HeaderValue::DateTime(d) => valid_date(Some(d)),
        HeaderValue::Text(text) => if header.offset_end > 0 {
            raw_date(message, header)
        } else {
            valid_date(date_in(encode_utf8(text@).push(0x0au8)))
        },
        _ => if header.offset_end > 0 {
            raw_date(message, header)
        } else {
            None
        },
    }
}

/// The valid date read from the raw bytes of a header; none when its
/// offsets lie outside the message.
pub open spec fn raw_date(message: Message, header: Header) -> Option<DateTime> {
    if header.offset_start <= header.offset_end <= message.raw_message@.len() {
        valid_date(
            date_in(
                message.raw_message@.subrange(
                    header.offset_start as int,
                    header.offset_end as int,
                ),
            ),
        )
    } else {
        None
    }
}

/// The text of a part of a date, with zeros before a number that is
/// shorter than its field.
pub open spec fn part_text(part: DatePart, date: DateTime) -> Seq<char> {
    match part {
        DatePart::Year => padded(date.year as nat, 4),
        DatePart::Month => padded(date.month as nat, 2),
        DatePart::Day => padded(date.day as nat, 2),
        DatePart::Date => padded(date.year as nat, 4) + "-"@ + padded(date.month as nat, 2) + "-"@
            + padded(date.day as nat, 2),
        DatePart::Julian => signed_decimal(date.modified_julian()),
        DatePart::Hour => padded(date.hour as nat, 2),
        DatePart::Minute => padded(date.minute as nat, 2),
        DatePart::Second => padded(date.second as nat, 2),
        DatePart::Time => padded(date.hour as nat, 2) + ":"@ + padded(date.minute as nat, 2) + ":"@
            + padded(date.second as nat, 2),
        DatePart::Iso8601 => rfc3339_of(date),
        DatePart::Std11 => rfc822_of(date),
        DatePart::Zone => zone_sign(date) + padded(date.tz_hour as nat, 2) + padded(
            date.tz_minute as nat,
            2,
        ),
        DatePart::Weekday => decimal(weekday_of(date) as nat),
    }
}

/// The date in a zone: moved to a given zone, left as it was written, or
/// moved to universal time, the zone of the runtime.
pub open spec fn zoned(zone: Zone, date: DateTime) -> DateTime {
    match zone {
        Zone::Time(tz) => in_zone(date, tz),
        Zone::Original => date,
        Zone::Local => date_at(timestamp_of(date)),
    }
}

/// The date at which a script runs, in a zone if one is given.
pub open spec fn current_date(now: i64, zone: Option<i32>) -> DateTime {
    match zone {
        Some(tz) => in_zone(date_at(now), tz),
        None => date_at(now),
    }
}

impl DatePart {
    /// The text of this part of a date.
    pub fn eval(&self, date: &DateTime) -> (r: String)
        ensures
            r@ == part_text(*self, *date),
    {
        let mut s = String::new();
        match self {
            DatePart::Year => {
                push_padded(&mut s, date.year as u64, 4);
            },
            DatePart::Month => {
                push_padded(&mut s, date.month as u64, 2);
            },
            DatePart::Day => {
                push_padded(&mut s, date.day as u64, 2);
            },
            DatePart::Date => {
                push_padded(&mut s, date.year as u64, 4);
                push_char(&mut s, '-');
                push_padded(&mut s, date.month as u64, 2);
                push_char(&mut s, '-');
                push_padded(&mut s, date.day as u64, 2);
                proof {
                    reveal_strlit("-");
                    assert(s@ =~= part_text(*self, *date));
                }
            },
            DatePart::Julian => {
                let day = date.julian_day();
                let modified = if day >= 2400001 {
                    day - 2400001
                } else {
                    day - 2400000
                };
                push_signed(&mut s, modified);
            },
            DatePart::Hour => {
                push_padded(&mut s, date.hour as u64, 2);
            },
            DatePart::Minute => {
                push_padded(&mut s, date.minute as u64, 2);
            },
            DatePart::Second => {
                push_padded(&mut s, date.second as u64, 2);
            },
            DatePart::Time => {
                push_padded(&mut s, date.hour as u64, 2);
                push_char(&mut s, ':');
                push_padded(&mut s, date.minute as u64, 2);
                push_char(&mut s, ':');
                push_padded(&mut s, date.second as u64, 2);
                proof {
                    reveal_strlit(":");
                    assert(s@ =~= part_text(*self, *date));
                }
            },
            DatePart::Iso8601 => {
                return to_rfc3339(date);
            },
            DatePart::Std11 => {
                return to_rfc822(date);
            },
            DatePart::Zone => {
                if date.tz_before_gmt && (date.tz_hour > 0 || date.tz_minute > 0) {
                    push_char(&mut s, '-');
                } else {
                    push_char(&mut s, '+');
                }
                push_padded(&mut s, date.tz_hour as u64, 2);
                push_padded(&mut s, date.tz_minute as u64, 2);
                proof {
                    reveal_strlit("-");
                    reveal_strlit("+");
                    assert(s@ =~= part_text(*self, *date));
                }
            },
            DatePart::Weekday => {
                push_decimal(&mut s, day_of_week(date) as u64);
            },
        }
        proof {
            assert(Seq::<char>::empty() + part_text(*self, *date) =~= part_text(*self, *date));
        }
        s
    }
}

impl Zone {
    /// The date in this zone.
    pub fn eval(&self, date: &DateTime) -> (r: DateTime)
        ensures
            r == zoned(*self, *date),
    {
        match self {
            Zone::Time(tz) => to_timezone(date, *tz),
            Zone::Original => *date,
            Zone::Local => from_timestamp(to_timestamp(date)),
        }
    }
}

impl Message {
    /// The valid date of a header, if it has one.
    pub fn find_dates(&self, header: &Header) -> (r: Option<DateTime>)
        ensures
            r == found_date(*self, *header),
    {
        let date = match &header.value {
            HeaderValue::DateTime(d) => Some(*d),
            other => {
                if header.offset_end > 0 {
                    if header.offset_start <= header.offset_end && header.offset_end
                        <= self.raw_message.len() {
                        let mut raw: Vec<u8> = Vec::new();
                        let mut i = header.offset_start;
                        while i < header.offset_end
                            invariant
                                header.offset_start <= i <= header.offset_end
                                    <= self.raw_message.len(),
                                raw@ == self.raw_message@.subrange(
                                    header.offset_start as int,
                                    i as int,
                                ),
                            decreases header.offset_end - i,
                        {
                            raw.push(self.raw_message[i]);
                            assert(raw@ =~= self.raw_message@.subrange(
                                header.offset_start as int,
                                i + 1,
                            ));
                            i += 1;
                        }
                        parse_date(raw.as_slice())
                    } else {
                        None
                    }
                } else {
                    match other {
                        HeaderValue::Text(text) => {
                            let mut raw = text.as_str().as_bytes_vec();
                            raw.push(0x0a);
                            parse_date(raw.as_slice())
                        },
                        _ => None,
                    }
                }
            },
        };
        match date {
            Some(d) => if d.is_valid() {
                Some(d)
            } else {
                None
            },
            None => None,
        }
    }
}

/// The texts that a test on dates looks at: for each of the headers at
/// `places` that has a valid date, in their order, the part of that date in
/// the zone.
pub open spec fn date_values(
    message: Message,
    places: Seq<(usize, usize)>,
    zone: Zone,
    part: DatePart,
) -> Seq<Seq<char>>
    decreases places.len(),
{
    if places.len() == 0 {
        Seq::empty()
    } else {
        let earlier = date_values(message, places.drop_last(), zone, part);
        match found_date(message, message.header_at(places.last())) {
            Some(date) => earlier.push(part_text(part, zoned(zone, date))),
            None => earlier,
        }
    }
}

impl TestDate {
    /// The headers that the test looks at, each as its part and its place.
    pub open spec fn places(self, ctx: Context) -> Seq<(usize, usize)> {
        candidates(
            ctx.message,
            ctx.part,
            seq![header_name_of(ctx.vars.text(self.header_name))],
            self.index,
            self.mime_anychild,
        )
    }

    /// The texts that the test looks at, in its order.
    pub open spec fn spec_subjects(self, ctx: Context) -> Seq<Seq<char>> {
        date_values(ctx.message, self.places(ctx), self.zone, self.date_part)
    }

    /// The search that the test makes.
    pub open spec fn search(self, ctx: Context, numbers: Numbers) -> Search {
        Search {
            match_type: self.match_type,
            comparator: self.comparator,
            values: self.spec_subjects(ctx),
            keys: ctx.vars.texts(self.key_list@),
            numbers,
        }
    }

    /// What the test finds, before it is negated.
    pub open spec fn found(self, ctx: Context, numbers: Numbers) -> bool {
        match self.match_type {
            MatchType::Count(relation) => count_meets(
                relation,
                numbers,
                self.key_list@.len() as int,
            ),
            MatchType::List => false,
            _ => self.search(ctx, numbers).first_match(0) is Some,
        }
    }

    /// The captures that the test publishes as match variables.
    pub open spec fn captured(self, ctx: Context, numbers: Numbers) -> Option<
        Seq<(usize, Seq<char>)>,
    > {
        match self.search(ctx, numbers).published() {
            Some((groups, positions)) => if selected(groups, positions, 64).len() > 0 {
                Some(selected(groups, positions, 64))
            } else {
                None
            },
            None => None,
        }
    }

    /// The texts that the test looks at, in its order; their number is the
    /// number that a test of counts goes by.
    pub fn subjects(&self, ctx: &Context) -> (r: Vec<String>)
        ensures
            texts(r@) == self.spec_subjects(*ctx),
    {
        let mut names = Vec::new();
        names.push(parse_header_name(ctx.vars.eval_string(&self.header_name)));
        assert(crate::runtime::headers::name_views(names@) =~= seq![
            header_name_of(ctx.vars.text(self.header_name)),
        ]);
        let places = ctx.header_candidates(&names, self.index, self.mime_anychild);
        let mut values: Vec<String> = Vec::new();
        let mut k: usize = 0;
        assert(texts(values@) =~= date_values(
            ctx.message,
            places@.take(0),
            self.zone,
            self.date_part,
        ));
        while k < places.len()
            invariant
                k <= places.len(),
                forall|l: int|
                    0 <= l < places@.len() ==> (#[trigger] places@[l]).0
                        < ctx.message.parts@.len() && places@[l].1
                        < ctx.message.parts@[places@[l].0 as int].headers@.len(),
                texts(values@) == date_values(
                    ctx.message,
                    places@.take(k as int),
                    self.zone,
                    self.date_part,
                ),
            decreases places.len() - k,
        {
            let (part, pos) = places[k];
            let ghost before = values@;
            proof {
                assert(places@.take(k + 1).drop_last() == places@.take(k as int));
                assert(places@.take(k + 1).last() == (part, pos));
            }
            match ctx.message.find_dates(&ctx.message.parts[part].headers[pos]) {
                Some(date) => {
                    let text = self.date_part.eval(&self.zone.eval(&date));
                    values.push(text);
                    assert(texts(values@) =~= texts(before).push(text@));
                },
                None => {},
            }
            k += 1;
        }
        assert(places@.take(places@.len() as int) == places@);
        values
    }

    /// Runs the test on the message of the context; `numbers` says how the
    /// texts, in the order of `subjects`, and their number stand to the keys
    /// as numbers.
    pub fn exec(&self, ctx: &mut Context, numbers: &Numbers) -> (r: bool)
        ensures
            r == (self.found(*old(ctx), *numbers) ^ self.is_not),
            old(ctx).same_but_matched(*final(ctx)),
            match self.captured(*old(ctx), *numbers) {
                Some(captured) => texts(final(ctx).vars.matched@) == matched_from(captured),
                None => final(ctx).vars.matched == old(ctx).vars.matched,
            },
    {
        match &self.match_type {
            MatchType::Count(relation) => {
                test_count(relation, numbers, self.key_list.len()) ^ self.is_not
            },
            MatchType::List => self.is_not,
            _ => {
                let values = self.subjects(ctx);
                let keys = ctx.vars.eval_strings_owned(&self.key_list);
                let mut captured: Vec<(usize, String)> = Vec::new();
                let found = self.match_type.match_any(
                    &values,
                    &keys,
                    &self.comparator,
                    numbers,
                    &mut captured,
                );
                if captured.len() > 0 {
                    ctx.vars.set_match_variables(captured);
                }
                found ^ self.is_not
            },
        }
    }
}

impl TestCurrentDate {
    /// The search that the test makes: the part of the date of the run is
    /// held against the keys.
    pub open spec fn search(self, ctx: Context, numbers: Numbers) -> Search {
        Search {
            match_type: self.match_type,
            comparator: self.comparator,
            values: seq![part_text(self.date_part, current_date(ctx.current_time, self.zone))],
            keys: ctx.vars.texts(self.key_list@),
            numbers,
        }
    }

    /// What the test finds, before it is negated; the count of a test of
    /// counts is one.
    pub open spec fn found(self, ctx: Context, numbers: Numbers) -> bool {
        match self.match_type {
            MatchType::Count(relation) => count_meets(
                relation,
                numbers,
                self.key_list@.len() as int,
            ),
            MatchType::List => false,
            _ => self.search(ctx, numbers).first_match(0) is Some,
        }
    }

    /// The captures that the test publishes as match variables.
    pub open spec fn captured(self, ctx: Context, numbers: Numbers) -> Option<
        Seq<(usize, Seq<char>)>,
    > {
        match self.search(ctx, numbers).published() {
            Some((groups, positions)) => if selected(groups, positions, 64).len() > 0 {
                Some(selected(groups, positions, 64))
            } else {
                None
            },
            None => None,
        }
    }

    /// The text that the test looks at.
    pub fn subject(&self, ctx: &Context) -> (r: String)
        ensures
            r@ == part_text(self.date_part, current_date(ctx.current_time, self.zone)),
    {
        let now = from_timestamp(ctx.current_time);
        let date = match self.zone {
            Some(tz) => to_timezone(&now, tz),
            None => now,
        };
        self.date_part.eval(&date)
    }

    /// Runs the test on the time of the context.
    pub fn exec(&self, ctx: &mut Context, numbers: &Numbers) -> (r: bool)
        ensures
            r == (self.found(*old(ctx), *numbers) ^ self.is_not),
            old(ctx).same_but_matched(*final(ctx)),
            match self.captured(*old(ctx), *numbers) {
                Some(captured) => texts(final(ctx).vars.matched@) == matched_from(captured),
                None => final(ctx).vars.matched == old(ctx).vars.matched,
            },
    {
        match &self.match_type {
            MatchType::Count(relation) => {
                test_count(relation, numbers, self.key_list.len()) ^ self.is_not
            },
            MatchType::List => self.is_not,
            _ => {
                let mut values: Vec<String> = Vec::new();
                let text = self.subject(ctx);
                values.push(text);
                assert(texts(values@) =~= seq![text@]);
                let keys = ctx.vars.eval_strings_owned(&self.key_list);
                let mut captured: Vec<(usize, String)> = Vec::new();
                let found = self.match_type.match_any(
                    &values,
                    &keys,
                    &self.comparator,
                    numbers,
                    &mut captured,
                );
                if captured.len() > 0 {
                    ctx.vars.set_match_variables(captured);
                }
                found ^ self.is_not
            },
        }
    }
}

} // verus!
