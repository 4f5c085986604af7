//! Messages about sensors: listing them, sampling them and reporting their
//! values, and a sensor that follows the reports.

use vstd::prelude::*;
use crate::messages::argument_vec::{from_argument_vec, vec_failure, vec_yields, ArgumentVec};
use crate::messages::common::{
    argument_roundtrips, arguments_roundtrip, decode_field, field_failure, field_yields,
    header_failure, message_roundtrips, or_else, ArgumentType, FromKatcpArgument,
    FromKatcpArguments, KatcpMessage, ToKatcpArgument, ToKatcpArguments,
};
use crate::messages::device::IntReply;
use crate::messages::float_literal::FloatLiteral;
use crate::messages::timestamp::KatcpTimestamp;
use crate::protocol::{KatcpError, Message, MessageKind, MessageResult, MessageView};
use crate::text::{from_chars, push_str_chars, str_eq};
use crate::utils::{
    collision_free, escape_spec, lemma_unescape_escape, lemma_unescape_plain, no_backslash_from,
    unescape, unescape_spec,
};

verus! {

/// The status of a sensor.
#[derive(Debug, PartialEq, Eq, Copy, Clone, Structural)]
pub enum Status {
    /// The sensor is being set up and no value has been seen yet.
    Unknown,
    /// The reading lies within the nominal range.
    Nominal,
    /// The reading lies outside the nominal range.
    Warn,
    /// The reading shows a critical condition.
    Error,
    /// Taking a reading failed and is unlikely to succeed without
    /// maintenance.
    Failure,
    /// The sensor could not be reached.
    Unreachable,
    /// The sensor is inactive, which is no failure.
    Inactive,
}

impl Status {
    /// The label that the value is written as.
    pub open spec fn label(self) -> Seq<char> {
        match self {
            Status::Unknown => "unknown"@,
            Status::Nominal => "nominal"@,
            Status::Warn => "warn"@,
            Status::Error => "error"@,
            Status::Failure => "failure"@,
            Status::Unreachable => "unreachable"@,
            Status::Inactive => "inactive"@,
        }
    }

    /// The value that a label stands for.
    pub open spec fn from_label(s: Seq<char>) -> Option<Status> {
        if s == "unknown"@ {
            Some(Status::Unknown)
        } else if s == "nominal"@ {
            Some(Status::Nominal)
        } else if s == "warn"@ {
            Some(Status::Warn)
        } else if s == "error"@ {
            Some(Status::Error)
        } else if s == "failure"@ {
            Some(Status::Failure)
        } else if s == "unreachable"@ {
            Some(Status::Unreachable)
        } else if s == "inactive"@ {
            Some(Status::Inactive)
        } else {
            None
        }
    }

    /// Every value is the one that its label stands for, and so is read
    /// back from its token.
    pub proof fn lemma_label_roundtrip(self)
        ensures
            Status::from_label(self.label()) == Some(self),
            argument_roundtrips(self),
    {
        reveal_strlit("unknown");
        reveal_strlit("nominal");
        reveal_strlit("warn");
        reveal_strlit("error");
        reveal_strlit("failure");
        reveal_strlit("unreachable");
        reveal_strlit("inactive");
        assert("unknown"@.len() == 7 && "nominal"@.len() == 7 && "failure"@.len() == 7);
        assert("unknown"@[0] == 'u' && "nominal"@[0] == 'n' && "failure"@[0] == 'f');
        assert("warn"@.len() == 4 && "error"@.len() == 5 && "unreachable"@.len() == 11);
        assert("inactive"@.len() == 8);
    }
}

impl ToKatcpArgument for Status {
    open spec fn argument_spec(&self) -> Seq<char> {
        self.label()
    }

    fn to_argument(&self) -> (token: String) {
        match self {
            Status::Unknown => "unknown".to_owned(),
            Status::Nominal => "nominal".to_owned(),
            Status::Warn => "warn".to_owned(),
            Status::Error => "error".to_owned(),
            Status::Failure => "failure".to_owned(),
            Status::Unreachable => "unreachable".to_owned(),
            Status::Inactive => "inactive".to_owned(),
        }
    }
}

impl FromKatcpArgument for Status {
    type Err = KatcpError;

    /// A token decodes where it is a label.
    open spec fn failure(token: Seq<char>) -> Option<KatcpError> {
        if Status::from_label(token) is None {
            Some(KatcpError::BadArgument)
        } else {
            None
        }
    }

    /// A label decodes to what it stands for.
    open spec fn yields(token: Seq<char>, v: Self) -> bool {
        Status::from_label(token) == Some(v)
    }

    fn from_argument(s: &str) -> (r: Result<Self, KatcpError>) {
        if str_eq(s, "unknown") {
            Ok(Status::Unknown)
        } else if str_eq(s, "nominal") {
            Ok(Status::Nominal)
        } else if str_eq(s, "warn") {
            Ok(Status::Warn)
        } else if str_eq(s, "error") {
            Ok(Status::Error)
        } else if str_eq(s, "failure") {
            Ok(Status::Failure)
        } else if str_eq(s, "unreachable") {
            Ok(Status::Unreachable)
        } else if str_eq(s, "inactive") {
            Ok(Status::Inactive)
        } else {
            Err(KatcpError::BadArgument)
        }
    }
}

impl Status {
    /// Whether a reading with this status holds a valid value: only a
    /// nominal one, a warning and an error do.
    pub fn is_valid(self) -> (valid: bool)
        ensures
            valid == (self == Status::Nominal || self == Status::Warn || self == Status::Error),
    {
        match self {
            Status::Nominal | Status::Warn | Status::Error => true,
            _ => false,
        }
    }
}

/// One reading of a sensor. The value stays a text: its type depends on the
/// sensor.
#[derive(Debug, PartialEq, Eq, Clone)]
pub struct SensorReading {
    pub name: String,
    pub status: Status,
    pub value: String,
}

impl ToKatcpArguments for SensorReading {
    open spec fn arguments_spec(&self) -> Seq<Seq<char>> {
        seq![escape_spec(self.name@), self.status.label(), escape_spec(self.value@)]
    }

    fn to_arguments(&self) -> (tokens: Vec<String>) {
        let tokens = vec![
            self.name.to_argument(),
            self.status.to_argument(),
            self.value.to_argument(),
        ];
        assert(tokens.deep_view() =~= self.arguments_spec());
        tokens
    }
}

impl FromKatcpArguments for SensorReading {
    type Err = KatcpError;

    /// A reading needs a name, a status and a value.
    open spec fn failure(tokens: Seq<Seq<char>>) -> Option<KatcpError> {
        or_else(
            field_failure::<String>(tokens, 0),
            or_else(field_failure::<Status>(tokens, 1), field_failure::<String>(tokens, 2)),
        )
    }

    open spec fn yields(tokens: Seq<Seq<char>>, v: Self) -> bool {
        &&& field_yields::<String>(tokens, 0, v.name)
        &&& field_yields::<Status>(tokens, 1, v.status)
        &&& field_yields::<String>(tokens, 2, v.value)
    }

    fn from_arguments(strings: &Vec<String>, from: usize) -> (r: Result<Self, KatcpError>) {
        let ghost tokens = strings.deep_view().skip(from as int);
        let ghost all = strings.deep_view();
        assert(forall|k: int| 0 <= k < tokens.len() ==> tokens[k] == all[from + k]);
        let name = decode_field::<String>(strings, from)?;
        let status = decode_field::<Status>(strings, from + 1)?;
        let value = decode_field::<String>(strings, from + 2)?;
        Ok(SensorReading { name, status, value })
    }
}

impl SensorReading {
    /// Neither the name nor the value holds a backslash directly before one
    /// of `_ 0 n r e t @`.
    pub open spec fn canonical(&self) -> bool {
        collision_free(self.name@) && collision_free(self.value@)
    }

    /// Reading the tokens of a canonical reading gives the reading back.
    pub proof fn lemma_roundtrip(self)
        requires
            self.canonical(),
        ensures
            arguments_roundtrip(self),
    {
        lemma_unescape_escape(self.name@);
        lemma_unescape_escape(self.value@);
        self.status.lemma_label_roundtrip();
    }
}

/// The error of the first of `n` readings, three tokens each, that cannot
/// be read.
pub open spec fn readings_failure(tokens: Seq<Seq<char>>, n: nat) -> Option<KatcpError>
    decreases n,
{
    if n == 0 {
        None
    } else {
        or_else(SensorReading::failure(tokens), readings_failure(tokens.skip(3), (n - 1) as nat))
    }
}

/// The tokens of the readings, one reading after the other.
pub open spec fn readings_text(readings: Seq<SensorReading>) -> Seq<Seq<char>>
    decreases readings.len(),
{
    if readings.len() == 0 {
        Seq::empty()
    } else {
        readings[0].arguments_spec() + readings_text(readings.skip(1))
    }
}

/// Readings that were taken at one time.
#[derive(Debug, PartialEq, Eq, Clone)]
pub struct SensorUpdates {
    pub timestamp: KatcpTimestamp,
    pub readings: Vec<SensorReading>,
}

impl ToKatcpArguments for SensorUpdates {
    /// The time, the number of readings, and the readings.
    open spec fn arguments_spec(&self) -> Seq<Seq<char>> {
        seq![
            self.timestamp.argument_spec(),
            ((self.readings@.len() % 0x1_0000_0000) as u32).argument_spec(),
        ] + readings_text(self.readings@)
    }

    fn to_arguments(&self) -> (tokens: Vec<String>) {
        let count: u32 = ((self.readings.len() as u64) % 0x1_0000_0000) as u32;
        let mut tokens = vec![self.timestamp.to_argument(), count.to_argument()];
        let ghost head = tokens.deep_view();
        assert(head =~= seq![
            self.timestamp.argument_spec(),
            ((self.readings@.len() % 0x1_0000_0000) as u32).argument_spec(),
        ]);
        let mut i: usize = 0;
        assert(self.readings@.skip(0) =~= self.readings@);
        while i < self.readings.len()
            invariant
                i <= self.readings.len(),
                tokens.deep_view() + readings_text(self.readings@.skip(i as int)) == head
                    + readings_text(self.readings@),
            decreases self.readings.len() - i,
        {
            let ghost before = tokens.deep_view();
            let ghost rest = self.readings@.skip(i as int);
            let mut more = self.readings[i].to_arguments();
            let ghost added = more.deep_view();
            tokens.append(&mut more);
            assert(tokens.deep_view() =~= before + added);
            assert(rest[0] == self.readings@[i as int]);
            assert(rest.skip(1) =~= self.readings@.skip(i + 1));
            i += 1;
            assert(tokens.deep_view() + readings_text(self.readings@.skip(i as int)) =~= before
                + readings_text(rest));
        }
        assert(self.readings@.skip(self.readings@.len() as int) =~= Seq::<SensorReading>::empty());
        assert(tokens.deep_view() + Seq::<Seq<char>>::empty() =~= tokens.deep_view());
        tokens
    }
}

impl FromKatcpArguments for SensorUpdates {
    type Err = KatcpError;

    /// The time and the count must decode, and as many readings as the
    /// count says must follow.
    open spec fn failure(tokens: Seq<Seq<char>>) -> Option<KatcpError> {
        or_else(
            field_failure::<KatcpTimestamp>(tokens, 0),
            or_else(
                field_failure::<u32>(tokens, 1),
                readings_failure(
                    tokens.skip(2),
                    crate::decimal::parse_unsigned(tokens[1], u32::MAX as nat).unwrap(),
                ),
            ),
        )
    }

    /// The time is that of the first token; there are as many readings as
    /// the second says, each read from its three tokens.
    open spec fn yields(tokens: Seq<Seq<char>>, v: Self) -> bool {
        &&& field_yields::<KatcpTimestamp>(tokens, 0, v.timestamp)
        &&& tokens.len() >= 2
        &&& crate::decimal::parse_unsigned(tokens[1], u32::MAX as nat) == Some(v.readings@.len())
        &&& forall|k: int|
            0 <= k < v.readings@.len() ==> SensorReading::yields(
                tokens.skip(2 + 3 * k),
                #[trigger] v.readings@[k],
            )
    }

    fn from_arguments(strings: &Vec<String>, from: usize) -> (r: Result<Self, KatcpError>) {
        let ghost tokens = strings.deep_view().skip(from as int);
        let ghost all = strings.deep_view();
        assert(forall|k: int| 0 <= k < tokens.len() ==> tokens[k] == all[from + k]);
        if from >= strings.len() {
            return Err(KatcpError::MissingArgument);
        }
        let timestamp = decode_field::<KatcpTimestamp>(strings, from)?;
        let count = decode_field::<u32>(strings, from + 1)?;
        let ghost body = tokens.skip(2);
        let mut readings: Vec<SensorReading> = Vec::new();
        let mut pos: usize = from + 2;
        let mut k: u32 = 0;
        assert(body.skip(0) =~= body);
        while k < count
            invariant
                k <= count,
                from + 2 <= pos <= strings.len(),
                pos == from + 2 + 3 * k,
                all == strings.deep_view(),
                tokens == all.skip(from as int),
                body == tokens.skip(2),
                tokens.len() >= 2,
                field_failure::<KatcpTimestamp>(tokens, 0) is None,
                field_failure::<u32>(tokens, 1) is None,
                field_yields::<KatcpTimestamp>(tokens, 0, timestamp),
                crate::decimal::parse_unsigned(tokens[1], u32::MAX as nat) == Some(count as nat),
                readings.len() == k,
                readings_failure(body.skip(3 * k), (count - k) as nat) == readings_failure(
                    body,
                    count as nat,
                ),
                forall|j: int|
                    0 <= j < k ==> SensorReading::yields(
                        tokens.skip(2 + 3 * j),
                        #[trigger] readings@[j],
                    ),
            decreases count - k,
        {
            assert(body.skip(3 * k) =~= all.skip(pos as int));
            assert(tokens.skip(2 + 3 * k) =~= all.skip(pos as int));
            match SensorReading::from_arguments(strings, pos) {
                Ok(reading) => {
                    assert(all.skip(pos as int).len() >= 3);
                    assert(body.skip(3 * k).skip(3) =~= body.skip(3 * (k + 1)));
                    readings.push(reading);
                },
                Err(e) => {
                    return Err(e);
                },
            }
            pos += 3;
            k += 1;
        }
        Ok(SensorUpdates { timestamp, readings })
    }
}

/// The tokens of canonical readings are read back as readings.
proof fn lemma_readings_roundtrip(readings: Seq<SensorReading>)
    requires
        forall|k: int| 0 <= k < readings.len() ==> (#[trigger] readings[k]).canonical(),
    ensures
        readings_text(readings).len() == 3 * readings.len(),
        readings_failure(readings_text(readings), readings.len()) is None,
        forall|k: int|
            0 <= k < readings.len() ==> SensorReading::yields(
                readings_text(readings).skip(3 * k),
                #[trigger] readings[k],
            ),
    decreases readings.len(),
{
    let tokens = readings_text(readings);
    if readings.len() > 0 {
        let first = readings[0];
        let tail = readings.skip(1);
        assert forall|k: int| 0 <= k < tail.len() implies (#[trigger] tail[k]).canonical() by {
            assert(tail[k] == readings[k + 1]);
        }
        lemma_readings_roundtrip(tail);
        first.lemma_roundtrip();
        let head = first.arguments_spec();
        assert(tokens == head + readings_text(tail));
        assert(tokens[0] == head[0] && tokens[1] == head[1] && tokens[2] == head[2]);
        assert(tokens.skip(3) =~= readings_text(tail));
        assert forall|k: int| 0 <= k < readings.len() implies SensorReading::yields(
            tokens.skip(3 * k),
            #[trigger] readings[k],
        ) by {
            if k == 0 {
                assert(tokens.skip(0) =~= tokens);
            } else {
                assert(tokens.skip(3 * k) =~= readings_text(tail).skip(3 * (k - 1)));
                assert(tail[k - 1] == readings[k]);
            }
        }
    }
}

impl SensorUpdates {
    /// The time is well formed, the number of readings fits 32 bits, and
    /// each reading is canonical.
    pub open spec fn canonical(&self) -> bool {
        &&& self.timestamp.wf()
        &&& self.readings@.len() <= u32::MAX
        &&& forall|k: int| 0 <= k < self.readings@.len() ==> (#[trigger] self.readings@[k]).canonical()
    }

    /// Reading the tokens of canonical updates gives the updates back.
    pub proof fn lemma_roundtrip(self)
        requires
            self.canonical(),
        ensures
            arguments_roundtrip(self),
    {
        let tokens = self.arguments_spec();
        let body = readings_text(self.readings@);
        let n = self.readings@.len();
        self.timestamp.lemma_roundtrip();
        crate::decimal::lemma_parse_unsigned_digits(n, u32::MAX as nat);
        lemma_readings_roundtrip(self.readings@);
        assert(tokens[0] == self.timestamp.argument_spec());
        assert(tokens[1] == crate::decimal::decimal_digits(n));
        assert(tokens.skip(2) =~= body);
        assert forall|k: int| 0 <= k < n implies SensorReading::yields(
            tokens.skip(2 + 3 * k),
            #[trigger] self.readings@[k],
        ) by {
            assert(tokens.skip(2 + 3 * k) =~= body.skip(3 * k));
        }
    }
}

/// What a device tells of one sensor when it lists its sensors.
#[derive(Debug, PartialEq, Eq, Clone)]
pub struct SensorListInform {
    /// The name of the sensor, in dotted notation.
    pub name: String,
    /// What the sensor measures, in words.
    pub description: String,
    /// The units of the value, in short; may be empty.
    pub units: String,
    /// The parameters of the sensor, of the kind of its value: for an
    /// integer and a float the nominal range and behind it the warning
    /// range, for a discrete the labels, for the others nothing.
    pub params: ArgumentVec,
}

impl ToKatcpArguments for SensorListInform {
    open spec fn arguments_spec(&self) -> Seq<Seq<char>> {
        seq![
            escape_spec(self.name@),
            escape_spec(self.description@),
            escape_spec(self.units@),
            self.params.kind().label(),
        ] + self.params.arguments_spec()
    }

    fn to_arguments(&self) -> (tokens: Vec<String>) {
        let mut tokens = vec![
            self.name.to_argument(),
            self.description.to_argument(),
            self.units.to_argument(),
            self.params.to_string(),
        ];
        let ghost head = tokens.deep_view();
        let mut more = self.params.to_arguments();
        let ghost added = more.deep_view();
        tokens.append(&mut more);
        assert(tokens.deep_view() =~= head + added);
        assert(head =~= seq![
            escape_spec(self.name@),
            escape_spec(self.description@),
            escape_spec(self.units@),
            self.params.kind().label(),
        ]);
        tokens
    }
}

impl FromKatcpArguments for SensorListInform {
    type Err = KatcpError;

    /// Three texts and the kind must decode, and every argument behind
    /// them as a value of that kind.
    open spec fn failure(tokens: Seq<Seq<char>>) -> Option<KatcpError> {
        or_else(
            field_failure::<String>(tokens, 0),
            or_else(
                field_failure::<String>(tokens, 1),
                or_else(
                    field_failure::<String>(tokens, 2),
                    or_else(
                        field_failure::<ArgumentType>(tokens, 3),
                        vec_failure(ArgumentType::from_label(tokens[3]).unwrap(), tokens.skip(4)),
                    ),
                ),
            ),
        )
    }

    open spec fn yields(tokens: Seq<Seq<char>>, v: Self) -> bool {
        &&& field_yields::<String>(tokens, 0, v.name)
        &&& field_yields::<String>(tokens, 1, v.description)
        &&& field_yields::<String>(tokens, 2, v.units)
        &&& field_yields::<ArgumentType>(tokens, 3, v.params.kind())
        &&& vec_yields(v.params.kind(), tokens.skip(4), v.params)
    }

    fn from_arguments(strings: &Vec<String>, from: usize) -> (r: Result<Self, KatcpError>) {
        let ghost tokens = strings.deep_view().skip(from as int);
        let ghost all = strings.deep_view();
        assert(forall|k: int| 0 <= k < tokens.len() ==> tokens[k] == all[from + k]);
        let name = decode_field::<String>(strings, from)?;
        let description = decode_field::<String>(strings, from + 1)?;
        let units = decode_field::<String>(strings, from + 2)?;
        let ty = decode_field::<ArgumentType>(strings, from + 3)?;
        assert(tokens.skip(4) =~= all.skip(from + 4));
        let params = from_argument_vec(&ty, strings, from + 4)?;
        Ok(SensorListInform { name, description, units, params })
    }
}

impl SensorListInform {
    /// The three texts hold no backslash directly before one of
    /// `_ 0 n r e t @`, and the parameters are canonical.
    pub open spec fn canonical(&self) -> bool {
        &&& collision_free(self.name@)
        &&& collision_free(self.description@)
        &&& collision_free(self.units@)
        &&& self.params.canonical()
    }

    /// Reading the tokens of a canonical inform gives the inform back.
    pub proof fn lemma_roundtrip(self)
        requires
            self.canonical(),
        ensures
            arguments_roundtrip(self),
    {
        let tokens = self.arguments_spec();
        lemma_unescape_escape(self.name@);
        lemma_unescape_escape(self.description@);
        lemma_unescape_escape(self.units@);
        self.params.kind().lemma_label_roundtrip();
        self.params.lemma_roundtrip();
        assert(tokens[0] == escape_spec(self.name@));
        assert(tokens[1] == escape_spec(self.description@));
        assert(tokens[2] == escape_spec(self.units@));
        assert(tokens[3] == self.params.kind().label());
        assert(tokens.skip(4) =~= self.params.arguments_spec());
    }
}

/// When a device reports the value of a sensor.
#[derive(Debug, PartialEq, Eq, Clone)]
pub enum SamplingStrategy {
    /// When it suits the device.
    Auto,
    /// Never.
    Never,
    /// Every `period` seconds.
    Period { period: FloatLiteral },
    /// When the value changes.
    Event,
    /// When the value has changed by more than `difference`.
    Differential { difference: FloatLiteral },
    /// When the value changes or `longest_period` seconds have passed, but
    /// not before `shortest_period` seconds have passed.
    EventRate { shortest_period: FloatLiteral, longest_period: FloatLiteral },
    /// When the value has changed by more than `difference` or
    /// `longest_period` seconds have passed, but not before
    /// `shortest_period` seconds have passed.
    DifferentialRate {
        difference: FloatLiteral,
        shortest_period: FloatLiteral,
        longest_period: FloatLiteral,
    },
}

/// The number of parameters that follow a verb; `None` for a text that is
/// no verb.
pub open spec fn strategy_arity(verb: Seq<char>) -> Option<nat> {
    if verb == "auto"@ || verb == "none"@ || verb == "event"@ {
        Some(0)
    } else if verb == "period"@ || verb == "differential"@ {
        Some(1)
    } else if verb == "event-rate"@ {
        Some(2)
    } else if verb == "differential-rate"@ {
        Some(3)
    } else {
        None
    }
}

impl SamplingStrategy {
    /// The verb that names the strategy.
    pub open spec fn verb(&self) -> Seq<char> {
        match self {
            SamplingStrategy::Auto => "auto"@,
            SamplingStrategy::Never => "none"@,
            SamplingStrategy::Period { .. } => "period"@,
            SamplingStrategy::Event => "event"@,
            SamplingStrategy::Differential { .. } => "differential"@,
            SamplingStrategy::EventRate { .. } => "event-rate"@,
            SamplingStrategy::DifferentialRate { .. } => "differential-rate"@,
        }
    }

    /// The parameters of the strategy, in order.
    pub open spec fn parameters(&self) -> Seq<FloatLiteral> {
        match self {
            SamplingStrategy::Auto => Seq::empty(),
            SamplingStrategy::Never => Seq::empty(),
            SamplingStrategy::Period { period } => seq![*period],
            SamplingStrategy::Event => Seq::empty(),
            SamplingStrategy::Differential { difference } => seq![*difference],
            SamplingStrategy::EventRate { shortest_period, longest_period } => seq![
                *shortest_period,
                *longest_period,
            ],
            SamplingStrategy::DifferentialRate {
                difference,
                shortest_period,
                longest_period,
            } => seq![*difference, *shortest_period, *longest_period],
        }
    }

    /// Every parameter is a number.
    pub open spec fn wf(&self) -> bool {
        forall|i: int| 0 <= i < self.parameters().len() ==> (#[trigger] self.parameters()[i]).wf()
    }
}

impl ToKatcpArguments for SamplingStrategy {
    /// The verb, then the parameters.
    open spec fn arguments_spec(&self) -> Seq<Seq<char>> {
        seq![self.verb()] + Seq::new(self.parameters().len(), |i: int| self.parameters()[i]@)
    }

    fn to_arguments(&self) -> (tokens: Vec<String>) {
        let tokens = match self {
            SamplingStrategy::Auto => vec!["auto".to_owned()],
            SamplingStrategy::Never => vec!["none".to_owned()],
            SamplingStrategy::Period { period } => vec!["period".to_owned(), period.to_argument()],
            SamplingStrategy::Event => vec!["event".to_owned()],
            SamplingStrategy::Differential { difference } => vec![
                "differential".to_owned(),
                difference.to_argument(),
            ],
            SamplingStrategy::EventRate { shortest_period, longest_period } => vec![
                "event-rate".to_owned(),
                shortest_period.to_argument(),
                longest_period.to_argument(),
            ],
            SamplingStrategy::DifferentialRate {
                difference,
                shortest_period,
                longest_period,
            } => vec![
                "differential-rate".to_owned(),
                difference.to_argument(),
                shortest_period.to_argument(),
                longest_period.to_argument(),
            ],
        };
        assert(tokens.deep_view() =~= self.arguments_spec());
        tokens
    }
}

/// The error of the first of the parameters `tokens[1..=n]` that is missing
/// or is no number.
pub open spec fn parameters_failure(tokens: Seq<Seq<char>>, n: nat) -> Option<KatcpError> {
    if n == 0 {
        None
    } else if n == 1 {
        field_failure::<FloatLiteral>(tokens, 1)
    } else if n == 2 {
        or_else(field_failure::<FloatLiteral>(tokens, 1), field_failure::<FloatLiteral>(tokens, 2))
    } else {
        or_else(
            field_failure::<FloatLiteral>(tokens, 1),
            or_else(
                field_failure::<FloatLiteral>(tokens, 2),
                field_failure::<FloatLiteral>(tokens, 3),
            ),
        )
    }
}

impl FromKatcpArguments for SamplingStrategy {
    type Err = KatcpError;

    /// The verb must be there and be one of the seven; the parameters that
    /// it asks for must follow and be numbers; nothing may follow them.
    open spec fn failure(tokens: Seq<Seq<char>>) -> Option<KatcpError> {
        if tokens.len() < 1 {
            Some(KatcpError::MissingArgument)
        } else {
            match strategy_arity(unescape_spec(tokens[0])) {
                None => Some(KatcpError::BadArgument),
                Some(n) => or_else(
                    parameters_failure(tokens, n),
                    if tokens.len() > n + 1 {
                        Some(KatcpError::BadArgument)
                    } else {
                        None
                    },
                ),
            }
        }
    }

    /// The strategy that the verb names, with the parameters behind it.
    open spec fn yields(tokens: Seq<Seq<char>>, v: Self) -> bool {
        &&& tokens.len() == 1 + v.parameters().len()
        &&& unescape_spec(tokens[0]) == v.verb()
        &&& forall|i: int|
            0 <= i < v.parameters().len() ==> field_yields::<FloatLiteral>(
                tokens,
                i + 1,
                #[trigger] v.parameters()[i],
            )
    }

    fn from_arguments(strings: &Vec<String>, from: usize) -> (r: Result<Self, KatcpError>) {
        let ghost tokens = strings.deep_view().skip(from as int);
        let ghost all = strings.deep_view();
        assert(forall|k: int| 0 <= k < tokens.len() ==> tokens[k] == all[from + k]);
        if from >= strings.len() {
            return Err(KatcpError::MissingArgument);
        }
        assert(all[from as int] == strings@[from as int]@);
        let verb = unescape(strings[from].as_str());
        let given: usize = strings.len() - from - 1;
        let arity: usize = if str_eq(verb.as_str(), "auto") || str_eq(verb.as_str(), "none")
            || str_eq(verb.as_str(), "event") {
            0
        } else if str_eq(verb.as_str(), "period") || str_eq(verb.as_str(), "differential") {
            1
        } else if str_eq(verb.as_str(), "event-rate") {
            2
        } else if str_eq(verb.as_str(), "differential-rate") {
            3
        } else {
            return Err(KatcpError::BadArgument);
        };
        let first = if arity >= 1 {
            if given < 1 {
                return Err(KatcpError::MissingArgument);
            }
            Some(decode_field::<FloatLiteral>(strings, from + 1)?)
        } else {
            None
        };
        let second = if arity >= 2 {
            if given < 2 {
                return Err(KatcpError::MissingArgument);
            }
            Some(decode_field::<FloatLiteral>(strings, from + 2)?)
        } else {
            None
        };
        let third = if arity >= 3 {
            if given < 3 {
                return Err(KatcpError::MissingArgument);
            }
            Some(decode_field::<FloatLiteral>(strings, from + 3)?)
        } else {
            None
        };
        if given > arity {
            return Err(KatcpError::BadArgument);
        }
        proof {
            reveal_strlit("auto");
            reveal_strlit("none");
            reveal_strlit("event");
            reveal_strlit("period");
            reveal_strlit("differential");
            reveal_strlit("event-rate");
            reveal_strlit("differential-rate");
            assert("auto"@[0] == 'a' && "none"@[0] == 'n' && "event"@.len() == 5);
            assert("period"@[0] == 'p' && "differential"@.len() == 12);
            assert("event-rate"@.len() == 10 && "differential-rate"@.len() == 17);
        }
        match (first, second, third) {
            (None, None, None) => {
                if str_eq(verb.as_str(), "auto") {
                    Ok(SamplingStrategy::Auto)
                } else if str_eq(verb.as_str(), "none") {
                    Ok(SamplingStrategy::Never)
                } else {
                    Ok(SamplingStrategy::Event)
                }
            },
            (Some(a), None, None) => {
                if str_eq(verb.as_str(), "period") {
                    Ok(SamplingStrategy::Period { period: a })
                } else {
                    Ok(SamplingStrategy::Differential { difference: a })
                }
            },
            (Some(a), Some(b), None) => Ok(
                SamplingStrategy::EventRate { shortest_period: a, longest_period: b },
            ),
            (Some(a), Some(b), Some(c)) => Ok(
                SamplingStrategy::DifferentialRate {
                    difference: a,
                    shortest_period: b,
                    longest_period: c,
                },
            ),
            _ => Err(KatcpError::Unknown),
        }
    }
}

impl SamplingStrategy {
    /// Reading the tokens of a strategy whose parameters are numbers gives
    /// the strategy back.
    pub proof fn lemma_roundtrip(self)
        requires
            self.wf(),
        ensures
            arguments_roundtrip(self),
    {
        let tokens = self.arguments_spec();
        let params = self.parameters();
        reveal_strlit("auto");
        reveal_strlit("none");
        reveal_strlit("event");
        reveal_strlit("period");
        reveal_strlit("differential");
        reveal_strlit("event-rate");
        reveal_strlit("differential-rate");
        assert("auto"@[0] == 'a' && "none"@[0] == 'n' && "event"@.len() == 5);
        assert("period"@[0] == 'p' && "differential"@.len() == 12);
        assert("event-rate"@.len() == 10 && "differential-rate"@.len() == 17);
        assert(no_backslash_from(self.verb(), 0)) by {
            reveal_with_fuel(no_backslash_from, 20);
        }
        lemma_unescape_plain(self.verb());
        assert(tokens[0] == self.verb());
        assert(tokens.len() == 1 + params.len());
        assert forall|i: int| 0 <= i < params.len() implies field_yields::<FloatLiteral>(
            tokens,
            i + 1,
            #[trigger] params[i],
        ) && field_failure::<FloatLiteral>(tokens, i + 1) is None by {
            assert(params[i].wf());
            assert(tokens[i + 1] == params[i]@);
        }
        if params.len() >= 1 {
            assert(params[0].wf());
        }
        if params.len() >= 2 {
            assert(params[1].wf());
        }
        if params.len() >= 3 {
            assert(params[2].wf());
        }
    }
}

/// A request to set, or to ask for, the sampling of a sensor.
#[derive(Debug, PartialEq, Eq, Clone)]
pub struct SamplingRequest {
    /// The name of the sensor, or several names with commas between them.
    pub names: String,
    /// The strategy to set; `None` asks for the one in force and changes
    /// nothing.
    pub strategy: Option<SamplingStrategy>,
}

impl ToKatcpArguments for SamplingRequest {
    open spec fn arguments_spec(&self) -> Seq<Seq<char>> {
        match self.strategy {
            Some(strategy) => seq![escape_spec(self.names@)] + strategy.arguments_spec(),
            None => seq![escape_spec(self.names@)],
        }
    }

    fn to_arguments(&self) -> (tokens: Vec<String>) {
        let mut tokens = vec![self.names.to_argument()];
        let ghost head = tokens.deep_view();
        assert(head =~= seq![escape_spec(self.names@)]);
        match &self.strategy {
            Some(strategy) => {
                let mut more = strategy.to_arguments();
                let ghost added = more.deep_view();
                tokens.append(&mut more);
                assert(tokens.deep_view() =~= head + added);
            },
            None => {},
        }
        tokens
    }
}

impl FromKatcpArguments for SamplingRequest {
    type Err = KatcpError;

    /// The names must be there; where anything follows them it must be a
    /// strategy.
    open spec fn failure(tokens: Seq<Seq<char>>) -> Option<KatcpError> {
        or_else(
            field_failure::<String>(tokens, 0),
            if tokens.len() > 1 {
                SamplingStrategy::failure(tokens.skip(1))
            } else {
                None
            },
        )
    }

    /// No verb behind the names reads as no strategy.
    open spec fn yields(tokens: Seq<Seq<char>>, v: Self) -> bool {
        &&& field_yields::<String>(tokens, 0, v.names)
        &&& match v.strategy {
            Some(strategy) => tokens.len() > 1 && SamplingStrategy::yields(tokens.skip(1), strategy),
            None => tokens.len() == 1,
        }
    }

    fn from_arguments(strings: &Vec<String>, from: usize) -> (r: Result<Self, KatcpError>) {
        let ghost tokens = strings.deep_view().skip(from as int);
        let ghost all = strings.deep_view();
        assert(forall|k: int| 0 <= k < tokens.len() ==> tokens[k] == all[from + k]);
        let names = decode_field::<String>(strings, from)?;
        if strings.len() - from > 1 {
            assert(tokens.skip(1) =~= all.skip(from + 1));
            let strategy = SamplingStrategy::from_arguments(strings, from + 1)?;
            Ok(SamplingRequest { names, strategy: Some(strategy) })
        } else {
            Ok(SamplingRequest { names, strategy: None })
        }
    }
}

impl SamplingRequest {
    /// The names hold no backslash directly before one of `_ 0 n r e t @`,
    /// and the parameters of the strategy are numbers.
    pub open spec fn canonical(&self) -> bool {
        &&& collision_free(self.names@)
        &&& self.strategy matches Some(strategy) ==> strategy.wf()
    }

    /// Reading the tokens of a canonical request gives the request back.
    pub proof fn lemma_roundtrip(self)
        requires
            self.canonical(),
        ensures
            arguments_roundtrip(self),
    {
        let tokens = self.arguments_spec();
        lemma_unescape_escape(self.names@);
        assert(tokens[0] == escape_spec(self.names@));
        match self.strategy {
            Some(strategy) => {
                strategy.lemma_roundtrip();
                assert(tokens.skip(1) =~= strategy.arguments_spec());
            },
            None => {},
        }
    }
}

/// The reply to a sampling request: the strategy that is now in force.
#[derive(Debug, PartialEq, Eq, Clone)]
pub struct SamplingReply {
    pub names: String,
    pub strategy: SamplingStrategy,
}

impl ToKatcpArguments for SamplingReply {
    open spec fn arguments_spec(&self) -> Seq<Seq<char>> {
        seq![escape_spec(self.names@)] + self.strategy.arguments_spec()
    }

    fn to_arguments(&self) -> (tokens: Vec<String>) {
        let mut tokens = vec![self.names.to_argument()];
        let ghost head = tokens.deep_view();
        assert(head =~= seq![escape_spec(self.names@)]);
        let mut more = self.strategy.to_arguments();
        let ghost added = more.deep_view();
        tokens.append(&mut more);
        assert(tokens.deep_view() =~= head + added);
        tokens
    }
}

impl FromKatcpArguments for SamplingReply {
    type Err = KatcpError;

    /// The names and a strategy must be there.
    open spec fn failure(tokens: Seq<Seq<char>>) -> Option<KatcpError> {
        or_else(field_failure::<String>(tokens, 0), SamplingStrategy::failure(tokens.skip(1)))
    }

    open spec fn yields(tokens: Seq<Seq<char>>, v: Self) -> bool {
        &&& field_yields::<String>(tokens, 0, v.names)
        &&& SamplingStrategy::yields(tokens.skip(1), v.strategy)
    }

    fn from_arguments(strings: &Vec<String>, from: usize) -> (r: Result<Self, KatcpError>) {
        let ghost tokens = strings.deep_view().skip(from as int);
        let ghost all = strings.deep_view();
        assert(forall|k: int| 0 <= k < tokens.len() ==> tokens[k] == all[from + k]);
        let names = decode_field::<String>(strings, from)?;
        assert(tokens.skip(1) =~= all.skip(from + 1));
        let strategy = SamplingStrategy::from_arguments(strings, from + 1)?;
        Ok(SamplingReply { names, strategy })
    }
}

impl SamplingReply {
    /// The names hold no backslash directly before one of `_ 0 n r e t @`,
    /// and the parameters of the strategy are numbers.
    pub open spec fn canonical(&self) -> bool {
        collision_free(self.names@) && self.strategy.wf()
    }

    /// Reading the tokens of a canonical reply gives the reply back.
    pub proof fn lemma_roundtrip(self)
        requires
            self.canonical(),
        ensures
            arguments_roundtrip(self),
    {
        let tokens = self.arguments_spec();
        lemma_unescape_escape(self.names@);
        self.strategy.lemma_roundtrip();
        assert(tokens[0] == escape_spec(self.names@));
        assert(tokens.skip(1) =~= self.strategy.arguments_spec());
    }
}

/// Asks what sensors the device has.
#[derive(Debug, PartialEq, Eq, Clone)]
pub enum SensorList {
    /// Asks for one sensor by name, or for all of them.
    Request {
        name: Option<String>,
    },
    /// One sensor of the device.
    Inform(SensorListInform),
    /// The number of informs that were sent.
    Reply(IntReply),
}

impl KatcpMessage for SensorList {
    open spec fn message_spec(&self, id: Option<u32>) -> MessageView {
        match self {
            SensorList::Request { name } => MessageView {
                kind: MessageKind::Request,
                name: "sensor-list"@,
                id,
                arguments: seq![name.argument_spec()],
            },
            SensorList::Inform(inner) => MessageView {
                kind: MessageKind::Inform,
                name: "sensor-list"@,
                id,
                arguments: inner.arguments_spec(),
            },
            SensorList::Reply(inner) => MessageView {
                kind: MessageKind::Reply,
                name: "sensor-list"@,
                id,
                arguments: inner.arguments_spec(),
            },
        }
    }

    open spec fn failure(m: MessageView) -> Option<KatcpError> {
        or_else(
            header_failure(m, "sensor-list"@, true),
            match m.kind {
                MessageKind::Request => field_failure::<Option<String>>(m.arguments, 0),
                MessageKind::Reply => IntReply::failure(m.arguments),
                MessageKind::Inform => SensorListInform::failure(m.arguments),
            },
        )
    }

    open spec fn yields(m: MessageView, v: Self) -> bool {
        &&& m.name == "sensor-list"@
        &&& match v {
            SensorList::Request { name } => {
                &&& m.kind == MessageKind::Request
                &&& field_yields::<Option<String>>(m.arguments, 0, name)
            },
            SensorList::Inform(inner) => {
                &&& m.kind == MessageKind::Inform
                &&& SensorListInform::yields(m.arguments, inner)
            },
            SensorList::Reply(inner) => {
                &&& m.kind == MessageKind::Reply
                &&& IntReply::yields(m.arguments, inner)
            },
        }
    }

    fn to_message(&self, id: Option<u32>) -> (r: MessageResult) {
        let (kind, arguments) = match self {
            SensorList::Request { name } => {
                let tokens = vec![name.to_argument()];
                assert(tokens.deep_view() =~= self.message_spec(id).arguments);
                (MessageKind::Request, tokens)
            },
            SensorList::Inform(inner) => (MessageKind::Inform, inner.to_arguments()),
            SensorList::Reply(inner) => (MessageKind::Reply, inner.to_arguments()),
        };
        Ok(Message::new_unchecked(kind, "sensor-list", id, arguments))
    }

    fn from_message(message: &Message) -> (r: Result<Self, KatcpError>) {
        if !str_eq(message.name_ref(), "sensor-list") {
            return Err(KatcpError::IncorrectType);
        }
        let args = message.arguments_ref();
        assert(args.deep_view().skip(0) =~= args.deep_view());
        match message.kind() {
            MessageKind::Request => {
                let name = decode_field::<Option<String>>(args, 0)?;
                Ok(SensorList::Request { name })
            },
            MessageKind::Reply => Ok(SensorList::Reply(IntReply::from_arguments(args, 0)?)),
            MessageKind::Inform => Ok(SensorList::Inform(SensorListInform::from_arguments(args, 0)?)),
        }
    }
}

impl SensorList {
    /// Each part of the message is read back from what it is written as.
    pub open spec fn parts_roundtrip(&self) -> bool {
        match self {
            SensorList::Request { name } => {
                &&& argument_roundtrips(*name)
            },
            SensorList::Inform(inner) => arguments_roundtrip(*inner),
            SensorList::Reply(inner) => arguments_roundtrip(*inner),
        }
    }

    /// Reading the raw message of a value gives the value back, where each
    /// of its parts is read back from what it is written as.
    pub proof fn lemma_roundtrip(self, id: Option<u32>)
        requires
            self.parts_roundtrip(),
        ensures
            message_roundtrips(self, id),
    {
    }
}

/// Sets or asks how a sensor is sampled.
#[derive(Debug, PartialEq, Eq, Clone)]
pub enum SensorSampling {
    Request(SamplingRequest),
    Reply(SamplingReply),
}

impl KatcpMessage for SensorSampling {
    open spec fn message_spec(&self, id: Option<u32>) -> MessageView {
        match self {
            SensorSampling::Request(inner) => MessageView {
                kind: MessageKind::Request,
                name: "sensor-sampling"@,
                id,
                arguments: inner.arguments_spec(),
            },
            SensorSampling::Reply(inner) => MessageView {
                kind: MessageKind::Reply,
                name: "sensor-sampling"@,
                id,
                arguments: inner.arguments_spec(),
            },
        }
    }

    open spec fn failure(m: MessageView) -> Option<KatcpError> {
        or_else(
            header_failure(m, "sensor-sampling"@, m.kind != MessageKind::Inform),
            match m.kind {
                MessageKind::Request => SamplingRequest::failure(m.arguments),
                MessageKind::Reply => SamplingReply::failure(m.arguments),
                MessageKind::Inform => None,
            },
        )
    }

    open spec fn yields(m: MessageView, v: Self) -> bool {
        &&& m.name == "sensor-sampling"@
        &&& match v {
            SensorSampling::Request(inner) => {
                &&& m.kind == MessageKind::Request
                &&& SamplingRequest::yields(m.arguments, inner)
            },
            SensorSampling::Reply(inner) => {
                &&& m.kind == MessageKind::Reply
                &&& SamplingReply::yields(m.arguments, inner)
            },
        }
    }

    fn to_message(&self, id: Option<u32>) -> (r: MessageResult) {
        let (kind, arguments) = match self {
            SensorSampling::Request(inner) => (MessageKind::Request, inner.to_arguments()),
            SensorSampling::Reply(inner) => (MessageKind::Reply, inner.to_arguments()),
        };
        Ok(Message::new_unchecked(kind, "sensor-sampling", id, arguments))
    }

    fn from_message(message: &Message) -> (r: Result<Self, KatcpError>) {
        if !str_eq(message.name_ref(), "sensor-sampling") {
            return Err(KatcpError::IncorrectType);
        }
        let args = message.arguments_ref();
        assert(args.deep_view().skip(0) =~= args.deep_view());
        match message.kind() {
            MessageKind::Request => Ok(SensorSampling::Request(SamplingRequest::from_arguments(args, 0)?)),
            MessageKind::Reply => Ok(SensorSampling::Reply(SamplingReply::from_arguments(args, 0)?)),
            MessageKind::Inform => Err(KatcpError::Unknown),
        }
    }
}

impl SensorSampling {
    /// Each part of the message is read back from what it is written as.
    pub open spec fn parts_roundtrip(&self) -> bool {
        match self {
            SensorSampling::Request(inner) => arguments_roundtrip(*inner),
            SensorSampling::Reply(inner) => arguments_roundtrip(*inner),
        }
    }

    /// Reading the raw message of a value gives the value back, where each
    /// of its parts is read back from what it is written as.
    pub proof fn lemma_roundtrip(self, id: Option<u32>)
        requires
            self.parts_roundtrip(),
        ensures
            message_roundtrips(self, id),
    {
    }
}

/// Asks for the value of sensors.
#[derive(Debug, PartialEq, Eq, Clone)]
pub enum SensorValue {
    /// Asks for one sensor by name, or for all of them.
    Request {
        name: Option<String>,
    },
    /// The number of informs that were sent.
    Reply(IntReply),
    /// Readings of sensors, sent in answer to the request.
    Inform(SensorUpdates),
}

impl KatcpMessage for SensorValue {
    open spec fn message_spec(&self, id: Option<u32>) -> MessageView {
        match self {
            SensorValue::Request { name } => MessageView {
                kind: MessageKind::Request,
                name: "sensor-value"@,
                id,
                arguments: seq![name.argument_spec()],
            },
            SensorValue::Reply(inner) => MessageView {
                kind: MessageKind::Reply,
                name: "sensor-value"@,
                id,
                arguments: inner.arguments_spec(),
            },
            SensorValue::Inform(inner) => MessageView {
                kind: MessageKind::Inform,
                name: "sensor-value"@,
                id,
                arguments: inner.arguments_spec(),
            },
        }
    }

    open spec fn failure(m: MessageView) -> Option<KatcpError> {
        or_else(
            header_failure(m, "sensor-value"@, true),
            match m.kind {
                MessageKind::Request => field_failure::<Option<String>>(m.arguments, 0),
                MessageKind::Reply => IntReply::failure(m.arguments),
                MessageKind::Inform => SensorUpdates::failure(m.arguments),
            },
        )
    }

    open spec fn yields(m: MessageView, v: Self) -> bool {
        &&& m.name == "sensor-value"@
        &&& match v {
            SensorValue::Request { name } => {
                &&& m.kind == MessageKind::Request
                &&& field_yields::<Option<String>>(m.arguments, 0, name)
            },
            SensorValue::Reply(inner) => {
                &&& m.kind == MessageKind::Reply
                &&& IntReply::yields(m.arguments, inner)
            },
            SensorValue::Inform(inner) => {
                &&& m.kind == MessageKind::Inform
                &&& SensorUpdates::yields(m.arguments, inner)
            },
        }
    }

    fn to_message(&self, id: Option<u32>) -> (r: MessageResult) {
        let (kind, arguments) = match self {
            SensorValue::Request { name } => {
                let tokens = vec![name.to_argument()];
                assert(tokens.deep_view() =~= self.message_spec(id).arguments);
                (MessageKind::Request, tokens)
            },
            SensorValue::Reply(inner) => (MessageKind::Reply, inner.to_arguments()),
            SensorValue::Inform(inner) => (MessageKind::Inform, inner.to_arguments()),
        };
        Ok(Message::new_unchecked(kind, "sensor-value", id, arguments))
    }

    fn from_message(message: &Message) -> (r: Result<Self, KatcpError>) {
        if !str_eq(message.name_ref(), "sensor-value") {
            return Err(KatcpError::IncorrectType);
        }
        let args = message.arguments_ref();
        assert(args.deep_view().skip(0) =~= args.deep_view());
        match message.kind() {
            MessageKind::Request => {
                let name = decode_field::<Option<String>>(args, 0)?;
                Ok(SensorValue::Request { name })
            },
            MessageKind::Reply => Ok(SensorValue::Reply(IntReply::from_arguments(args, 0)?)),
            MessageKind::Inform => Ok(SensorValue::Inform(SensorUpdates::from_arguments(args, 0)?)),
        }
    }
}

impl SensorValue {
    /// Each part of the message is read back from what it is written as.
    pub open spec fn parts_roundtrip(&self) -> bool {
        match self {
            SensorValue::Request { name } => {
                &&& argument_roundtrips(*name)
            },
            SensorValue::Reply(inner) => arguments_roundtrip(*inner),
            SensorValue::Inform(inner) => arguments_roundtrip(*inner),
        }
    }

    /// Reading the raw message of a value gives the value back, where each
    /// of its parts is read back from what it is written as.
    pub proof fn lemma_roundtrip(self, id: Option<u32>)
        requires
            self.parts_roundtrip(),
        ensures
            message_roundtrips(self, id),
    {
    }
}

/// The report that the sampling of a sensor sends.
#[derive(Debug, PartialEq, Eq, Clone)]
pub enum SensorStatus {
    /// Readings of sensors, sent as their sampling asks.
    Inform(SensorUpdates),
}

impl KatcpMessage for SensorStatus {
    open spec fn message_spec(&self, id: Option<u32>) -> MessageView {
        match self {
            SensorStatus::Inform(inner) => MessageView {
                kind: MessageKind::Inform,
                name: "sensor-status"@,
                id,
                arguments: inner.arguments_spec(),
            },
        }
    }

    open spec fn failure(m: MessageView) -> Option<KatcpError> {
        or_else(
            header_failure(m, "sensor-status"@, m.kind != MessageKind::Request && m.kind != MessageKind::Reply),
            match m.kind {
                MessageKind::Request => None,
                MessageKind::Reply => None,
                MessageKind::Inform => SensorUpdates::failure(m.arguments),
            },
        )
    }

    open spec fn yields(m: MessageView, v: Self) -> bool {
        &&& m.name == "sensor-status"@
        &&& match v {
            SensorStatus::Inform(inner) => {
                &&& m.kind == MessageKind::Inform
                &&& SensorUpdates::yields(m.arguments, inner)
            },
        }
    }

    fn to_message(&self, id: Option<u32>) -> (r: MessageResult) {
        let (kind, arguments) = match self {
            SensorStatus::Inform(inner) => (MessageKind::Inform, inner.to_arguments()),
        };
        Ok(Message::new_unchecked(kind, "sensor-status", id, arguments))
    }

    fn from_message(message: &Message) -> (r: Result<Self, KatcpError>) {
        if !str_eq(message.name_ref(), "sensor-status") {
            return Err(KatcpError::IncorrectType);
        }
        let args = message.arguments_ref();
        assert(args.deep_view().skip(0) =~= args.deep_view());
        match message.kind() {
            MessageKind::Request => Err(KatcpError::Unknown),
            MessageKind::Reply => Err(KatcpError::Unknown),
            MessageKind::Inform => Ok(SensorStatus::Inform(SensorUpdates::from_arguments(args, 0)?)),
        }
    }
}

impl SensorStatus {
    /// Each part of the message is read back from what it is written as.
    pub open spec fn parts_roundtrip(&self) -> bool {
        match self {
            SensorStatus::Inform(inner) => arguments_roundtrip(*inner),
        }
    }

    /// Reading the raw message of a value gives the value back, where each
    /// of its parts is read back from what it is written as.
    pub proof fn lemma_roundtrip(self, id: Option<u32>)
        requires
            self.parts_roundtrip(),
        ensures
            message_roundtrips(self, id),
    {
    }
}

/// The text of the error for a reading that names another sensor.
pub open spec fn mismatch_text(sensor: Seq<char>, reading: Seq<char>) -> Seq<char> {
    "Tried to update sensor with name:"@ + sensor + " with a reading of name:"@ + reading
}

/// A sensor: its name, and the status, time and value of its last reading.
/// The value is of any type that goes both ways through an argument.
#[derive(Debug, PartialEq, Eq)]
pub struct Sensor<T> where T: ToKatcpArgument + FromKatcpArgument<Err = KatcpError> + Clone {
    name: String,
    status: Status,
    timestamp: KatcpTimestamp,
    value: T,
}

impl<T> Sensor<T> where T: ToKatcpArgument + FromKatcpArgument<Err = KatcpError> + Clone {
    /// The name of the sensor.
    pub closed spec fn name_view(&self) -> Seq<char> {
        self.name@
    }

    /// The status of the last reading.
    pub closed spec fn status_view(&self) -> Status {
        self.status
    }

    /// The time of the last reading.
    pub closed spec fn timestamp_view(&self) -> KatcpTimestamp {
        self.timestamp
    }

    /// The value of the last reading.
    pub closed spec fn value_view(&self) -> T {
        self.value
    }

    /// A sensor with its first reading.
    pub fn new(name: String, status: Status, timestamp: KatcpTimestamp, value: T) -> (sensor: Self)
        ensures
            sensor.name_view() == name@,
            sensor.status_view() == status,
            sensor.timestamp_view() == timestamp,
            sensor.value_view() == value,
    {
        Sensor { name, status, timestamp, value }
    }

    /// A copy of the last value.
    pub fn value(&self) -> (v: T)
        ensures
            cloned(self.value_view(), v),
    {
        self.value.clone()
    }

    /// The last status.
    pub fn status(&self) -> (s: Status)
        ensures
            s == self.status_view(),
    {
        self.status
    }

    /// The time of the last reading.
    pub fn last_updated(&self) -> (t: KatcpTimestamp)
        ensures
            t == self.timestamp_view(),
    {
        self.timestamp
    }

    /// Takes a new reading: the status, the time and a copy of the value.
    pub fn update(&mut self, status: &Status, timestamp: &KatcpTimestamp, value: &T)
        ensures
            final(self).name_view() == old(self).name_view(),
            final(self).status_view() == *status,
            final(self).timestamp_view() == *timestamp,
            cloned(*value, final(self).value_view()),
    {
        self.status = *status;
        self.timestamp = *timestamp;
        self.value = value.clone();
    }

    /// Takes a reading that a device reported. A reading of another sensor
    /// is refused with a `Message` and a value that does not decode with
    /// the error of the decoder; the sensor then stays as it was.
    pub fn update_from_reading(&mut self, timestamp: &KatcpTimestamp, reading: &SensorReading) -> (r:
        Result<(), KatcpError>)
        ensures
            final(self).name_view() == old(self).name_view(),
            match r {
                Ok(_) => {
                    &&& old(self).name_view() == reading.name@
                    &&& T::failure(reading.value@) is None
                    &&& final(self).status_view() == reading.status
                    &&& final(self).timestamp_view() == *timestamp
                    &&& exists|v: T|
                        T::yields(reading.value@, v) && cloned(v, final(self).value_view())
                },
                Err(e) => {
                    &&& *final(self) == *old(self)
                    &&& if old(self).name_view() != reading.name@ {
                        e matches KatcpError::Message(text) && text@ == mismatch_text(
                            old(self).name_view(),
                            reading.name@,
                        )
                    } else {
                        T::failure(reading.value@) == Some(e)
                    }
                },
            },
    {
        if !str_eq(self.name.as_str(), reading.name.as_str()) {
            let mut text: Vec<char> = Vec::new();
            push_str_chars(&mut text, "Tried to update sensor with name:");
            push_str_chars(&mut text, self.name.as_str());
            push_str_chars(&mut text, " with a reading of name:");
            push_str_chars(&mut text, reading.name.as_str());
            return Err(KatcpError::Message(from_chars(&text)));
        }
        match T::from_argument(reading.value.as_str()) {
            Ok(value) => {
                self.update(&reading.status, timestamp, &value);
                Ok(())
            },
            Err(e) => Err(e),
        }
    }
}

} // verus!
