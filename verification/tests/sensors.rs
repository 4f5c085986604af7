use katcp::messages::argument_vec::ArgumentVec;
use katcp::messages::common::{
    message_from_str, FromKatcpArgument, FromKatcpArguments, KatcpMessage, RetCode,
    ToKatcpArgument, ToKatcpArguments,
};
use katcp::messages::device::IntReply;
use katcp::messages::float_literal::FloatLiteral;
use katcp::messages::sensors::{
    SamplingReply, SamplingRequest, SamplingStrategy, Sensor, SensorList, SensorListInform,
    SensorReading, SensorSampling, SensorStatus, SensorUpdates, SensorValue, Status,
};
use katcp::messages::timestamp::KatcpTimestamp;
use katcp::protocol::{KatcpError, Message};

fn roundtrip_test<T>(message: T)
where
    T: KatcpMessage + PartialEq + std::fmt::Debug,
{
    let raw = message.to_message(None).unwrap();
    let s = raw.to_string();
    println!("Katcp Payload:\n{}", s);
    let raw_test: Message = (s.as_str()).try_into().unwrap();
    let message_test = T::from_message(&raw_test).unwrap();
    assert_eq!(message, message_test)
}

fn float(x: f32) -> FloatLiteral {
    FloatLiteral::new(&format!("{}", x)).unwrap()
}

fn number(literal: &FloatLiteral) -> f32 {
    literal.text().parse().unwrap()
}

fn strings(tokens: &[&str]) -> Vec<String> {
    tokens.iter().map(|s| s.to_string()).collect()
}

#[test]
fn test_sensor() {
    let mut pump_pressure = Sensor::new(
        "pump.pressure".to_owned(),
        Status::Nominal,
        KatcpTimestamp::new(1654553033, 0).unwrap(),
        float(3.15),
    );
    assert_eq!(number(&pump_pressure.value()), 3.15);
    pump_pressure.update(
        &Status::Warn,
        &KatcpTimestamp::new(1654553034, 0).unwrap(),
        &float(90000.0),
    );
    assert_eq!(pump_pressure.status(), Status::Warn);
    assert_eq!(number(&pump_pressure.value()), 90000.0);
    assert!(pump_pressure.status().is_valid());
}

#[test]
fn sensors_status_validity() {
    assert!(!Status::Unknown.is_valid());
    assert!(Status::Nominal.is_valid());
    assert!(Status::Warn.is_valid());
    assert!(Status::Error.is_valid());
    assert!(!Status::Failure.is_valid());
    assert!(!Status::Unreachable.is_valid());
    assert!(!Status::Inactive.is_valid());
}

#[test]
fn test_sensor_list() {
    roundtrip_test(SensorList::Request { name: None });
    roundtrip_test(SensorList::Request {
        name: Some("rfe0.temperature".to_owned()),
    });
    roundtrip_test(SensorList::Reply(IntReply::Okay { num: 420 }));
    roundtrip_test(SensorList::Inform(SensorListInform {
        name: "rfe0.temperature".to_owned(),
        description: "The temperature of rfe0".to_owned(),
        units: "Kelvin".to_owned(),
        params: ArgumentVec::Float(vec![float(123.234), float(0.2), float(12.), float(-122e05)]),
    }));
}

#[test]
fn test_sensor_sampling() {
    roundtrip_test(SensorSampling::Request(SamplingRequest {
        names: "wind-speed".to_owned(),
        strategy: Some(SamplingStrategy::Auto),
    }));
    roundtrip_test(SensorSampling::Request(SamplingRequest {
        names: "wind-speed".to_owned(),
        strategy: Some(SamplingStrategy::Never),
    }));
    roundtrip_test(SensorSampling::Request(SamplingRequest {
        names: "wind-speed".to_owned(),
        strategy: None,
    }));
    roundtrip_test(SensorSampling::Request(SamplingRequest {
        names: "wind-speed".to_owned(),
        strategy: Some(SamplingStrategy::Period { period: float(1.0) }),
    }));
    roundtrip_test(SensorSampling::Request(SamplingRequest {
        names: "wind-speed".to_owned(),
        strategy: Some(SamplingStrategy::DifferentialRate {
            difference: float(10.5),
            shortest_period: float(3.1),
            longest_period: float(15.0),
        }),
    }));
    roundtrip_test(SensorSampling::Reply(SamplingReply {
        names: "wind-speed".to_owned(),
        strategy: SamplingStrategy::EventRate {
            shortest_period: float(3.15),
            longest_period: float(2.71),
        },
    }));
    roundtrip_test(SensorSampling::Reply(SamplingReply {
        names: "wind-speed".to_owned(),
        strategy: SamplingStrategy::Differential { difference: float(420.69) },
    }));
}

#[test]
fn test_sensor_value() {
    roundtrip_test(SensorValue::Request { name: None });
    roundtrip_test(SensorValue::Request {
        name: Some("antennas.1.pitch".to_owned()),
    });
    roundtrip_test(SensorValue::Reply(IntReply::Okay { num: 10 }));
    roundtrip_test(SensorValue::Reply(IntReply::Error {
        ret_code: RetCode::Invalid,
        message: "Uh oh".to_owned(),
    }));
    roundtrip_test(SensorValue::Inform(SensorUpdates {
        timestamp: KatcpTimestamp::new(1654553033, 0).unwrap(),
        readings: vec![
            SensorReading {
                name: "big-fat-motor.current".to_owned(),
                status: Status::Nominal,
                value: "0.813".to_owned(),
            },
            SensorReading {
                name: "big-fat-motor.voltage".to_owned(),
                status: Status::Nominal,
                value: "24.1".to_owned(),
            },
        ],
    }));
}

#[test]
fn test_updating_sensor_values() {
    let mut pump_pressure = Sensor::new(
        "pump.pressure".to_owned(),
        Status::Nominal,
        KatcpTimestamp::new(1654553033, 0).unwrap(),
        float(3.15),
    );
    let new_time = KatcpTimestamp::new(1654553034, 250_000_000).unwrap();
    let incoming_message: SensorValue = message_from_str(
        format!(
            "#sensor-value {} 1 pump.pressure warn 8.73",
            new_time.to_argument()
        )
        .as_str(),
    )
    .unwrap();
    if let SensorValue::Inform(SensorUpdates {
        timestamp,
        readings,
    }) = incoming_message
    {
        pump_pressure
            .update_from_reading(&timestamp, readings.first().unwrap())
            .unwrap();
        assert_eq!(number(&pump_pressure.value()), 8.73);
        assert_eq!(pump_pressure.status(), Status::Warn);
        assert_eq!(pump_pressure.last_updated(), new_time);
    } else {
        panic!()
    }
}

#[test]
fn test_sensor_status() {
    roundtrip_test(SensorStatus::Inform(SensorUpdates {
        timestamp: KatcpTimestamp::new(1654553033, 0).unwrap(),
        readings: vec![
            SensorReading {
                name: "big-fat-motor.current".to_owned(),
                status: Status::Nominal,
                value: "0.813".to_owned(),
            },
            SensorReading {
                name: "big-fat-motor.voltage".to_owned(),
                status: Status::Nominal,
                value: "24.1".to_owned(),
            },
        ],
    }));
}

#[test]
fn scenario_sensor_list_inform() {
    let list: SensorList = message_from_str(
        "#sensor-list drive.enable-azim Azimuth\\_drive\\_enable\\_signal\\_status \\@ boolean\n",
    )
    .unwrap();
    assert_eq!(
        list,
        SensorList::Inform(SensorListInform {
            name: "drive.enable-azim".to_owned(),
            description: "Azimuth drive enable signal status".to_owned(),
            units: "".to_owned(),
            params: ArgumentVec::Boolean(vec![]),
        })
    );
}

#[test]
fn sensor_list_with_a_range() {
    let list: SensorList = message_from_str(
        "#sensor-list drive.dc-voltage-elev Drive\\_bus\\_voltage V float 0.0 900.0\n",
    )
    .unwrap();
    assert_eq!(
        list,
        SensorList::Inform(SensorListInform {
            name: "drive.dc-voltage-elev".to_owned(),
            description: "Drive bus voltage".to_owned(),
            units: "V".to_owned(),
            params: ArgumentVec::Float(vec![
                FloatLiteral::new("0.0").unwrap(),
                FloatLiteral::new("900.0").unwrap()
            ]),
        })
    );
    assert_eq!(
        message_from_str::<SensorList>("#sensor-list a b c integer 1 two\n"),
        Err(KatcpError::BadArgument)
    );
    assert_eq!(
        message_from_str::<SensorList>("#sensor-list a b c number 1\n"),
        Err(KatcpError::BadArgument)
    );
    assert_eq!(
        message_from_str::<SensorList>("#sensor-list a b c\n"),
        Err(KatcpError::MissingArgument)
    );
}

#[test]
fn count_prefixed_readings() {
    assert_eq!(
        SensorUpdates::from_arguments(&strings(&["100", "2", "a", "nominal", "1"]), 0),
        Err(KatcpError::MissingArgument)
    );
    assert_eq!(
        SensorUpdates::from_arguments(&strings(&["100", "0"]), 0),
        Ok(SensorUpdates { timestamp: KatcpTimestamp::new(100, 0).unwrap(), readings: vec![] })
    );
    assert_eq!(
        SensorUpdates::from_arguments(&strings(&["100", "1", "a", "nominal", "1", "extra"]), 0),
        Ok(SensorUpdates {
            timestamp: KatcpTimestamp::new(100, 0).unwrap(),
            readings: vec![SensorReading {
                name: "a".to_owned(),
                status: Status::Nominal,
                value: "1".to_owned()
            }],
        })
    );
    assert_eq!(
        SensorUpdates::from_arguments(&strings(&["100", "2", "a", "nominal", "1", "b", "bad", "2"]), 0),
        Err(KatcpError::BadArgument)
    );
    assert_eq!(
        SensorUpdates::from_arguments(&strings(&["100", "two"]), 0),
        Err(KatcpError::BadArgument)
    );
    assert_eq!(
        SensorUpdates::from_arguments(&strings(&["100"]), 0),
        Err(KatcpError::MissingArgument)
    );
    assert_eq!(
        SensorUpdates::from_arguments(&strings(&["100", "4294967295"]), 0),
        Err(KatcpError::MissingArgument)
    );
    let updates = SensorUpdates {
        timestamp: KatcpTimestamp::new(7, 500_000_000).unwrap(),
        readings: vec![
            SensorReading { name: "a b".to_owned(), status: Status::Warn, value: "".to_owned() },
            SensorReading { name: "c".to_owned(), status: Status::Unknown, value: "x".to_owned() },
        ],
    };
    assert_eq!(
        updates.to_arguments(),
        strings(&["7.5", "2", "a\\_b", "warn", "\\@", "c", "unknown", "x"])
    );
}

#[test]
fn sampling_strategies_by_verb() {
    let read = |tokens: &[&str]| SamplingStrategy::from_arguments(&strings(tokens), 0);
    assert_eq!(read(&["auto"]), Ok(SamplingStrategy::Auto));
    assert_eq!(read(&["none"]), Ok(SamplingStrategy::Never));
    assert_eq!(read(&["event"]), Ok(SamplingStrategy::Event));
    assert_eq!(read(&["period", "1.5"]), Ok(SamplingStrategy::Period { period: float(1.5) }));
    assert_eq!(
        read(&["differential", "2"]),
        Ok(SamplingStrategy::Differential { difference: FloatLiteral::new("2").unwrap() })
    );
    assert_eq!(
        read(&["event-rate", "1", "2"]),
        Ok(SamplingStrategy::EventRate {
            shortest_period: FloatLiteral::new("1").unwrap(),
            longest_period: FloatLiteral::new("2").unwrap()
        })
    );
    assert_eq!(
        read(&["differential-rate", "1", "2", "3"]),
        Ok(SamplingStrategy::DifferentialRate {
            difference: FloatLiteral::new("1").unwrap(),
            shortest_period: FloatLiteral::new("2").unwrap(),
            longest_period: FloatLiteral::new("3").unwrap()
        })
    );
    // the wrong number of parameters is an error
    assert_eq!(read(&[]), Err(KatcpError::MissingArgument));
    assert_eq!(read(&["period"]), Err(KatcpError::MissingArgument));
    assert_eq!(read(&["event-rate", "1"]), Err(KatcpError::MissingArgument));
    assert_eq!(read(&["differential-rate", "1", "2"]), Err(KatcpError::MissingArgument));
    assert_eq!(read(&["auto", "1"]), Err(KatcpError::BadArgument));
    assert_eq!(read(&["period", "1", "2"]), Err(KatcpError::BadArgument));
    assert_eq!(read(&["differential-rate", "1", "2", "3", "4"]), Err(KatcpError::BadArgument));
    assert_eq!(read(&["period", "soon"]), Err(KatcpError::BadArgument));
    assert_eq!(read(&["event-rate", "x"]), Err(KatcpError::BadArgument));
    assert_eq!(read(&["sometimes"]), Err(KatcpError::BadArgument));
    assert_eq!(
        SamplingStrategy::EventRate { shortest_period: float(0.5), longest_period: float(2.0) }
            .to_arguments(),
        strings(&["event-rate", "0.5", "2"])
    );
    assert_eq!(SamplingStrategy::Never.to_arguments(), strings(&["none"]));
}

#[test]
fn sampling_requests() {
    let read = |line: &str| message_from_str::<SensorSampling>(line);
    assert_eq!(
        read("?sensor-sampling wind\n"),
        Ok(SensorSampling::Request(SamplingRequest { names: "wind".to_owned(), strategy: None }))
    );
    assert_eq!(
        read("?sensor-sampling wind period 2.5\n"),
        Ok(SensorSampling::Request(SamplingRequest {
            names: "wind".to_owned(),
            strategy: Some(SamplingStrategy::Period { period: float(2.5) })
        }))
    );
    assert_eq!(read("?sensor-sampling wind period\n"), Err(KatcpError::MissingArgument));
    assert_eq!(read("?sensor-sampling wind period 1 2\n"), Err(KatcpError::BadArgument));
    assert_eq!(read("?sensor-sampling wind often\n"), Err(KatcpError::BadArgument));
    assert_eq!(read("?sensor-sampling\n"), Err(KatcpError::MissingArgument));
    assert_eq!(read("!sensor-sampling wind\n"), Err(KatcpError::MissingArgument));
    assert_eq!(
        read("!sensor-sampling wind event\n"),
        Ok(SensorSampling::Reply(SamplingReply {
            names: "wind".to_owned(),
            strategy: SamplingStrategy::Event
        }))
    );
    assert_eq!(read("#sensor-sampling wind event\n"), Err(KatcpError::Unknown));
}

#[test]
fn sensor_refuses_other_readings() {
    let mut level = Sensor::new(
        "tank.level".to_owned(),
        Status::Nominal,
        KatcpTimestamp::new(1, 0).unwrap(),
        5u32,
    );
    let later = KatcpTimestamp::new(2, 0).unwrap();
    let other = SensorReading {
        name: "tank.pressure".to_owned(),
        status: Status::Error,
        value: "9".to_owned(),
    };
    assert_eq!(
        level.update_from_reading(&later, &other),
        Err(KatcpError::Message(
            "Tried to update sensor with name:tank.level with a reading of name:tank.pressure"
                .to_owned()
        ))
    );
    let bad = SensorReading {
        name: "tank.level".to_owned(),
        status: Status::Error,
        value: "nine".to_owned(),
    };
    assert_eq!(level.update_from_reading(&later, &bad), Err(KatcpError::BadArgument));
    assert_eq!(level.value(), 5);
    assert_eq!(level.status(), Status::Nominal);
    assert_eq!(level.last_updated(), KatcpTimestamp::new(1, 0).unwrap());
    let good = SensorReading {
        name: "tank.level".to_owned(),
        status: Status::Warn,
        value: "9".to_owned(),
    };
    assert_eq!(level.update_from_reading(&later, &good), Ok(()));
    assert_eq!(level.value(), 9);
    assert_eq!(level.status(), Status::Warn);
    assert_eq!(level.last_updated(), later);
}

#[test]
fn status_labels() {
    for (status, label) in [
        (Status::Unknown, "unknown"),
        (Status::Nominal, "nominal"),
        (Status::Warn, "warn"),
        (Status::Error, "error"),
        (Status::Failure, "failure"),
        (Status::Unreachable, "unreachable"),
        (Status::Inactive, "inactive"),
    ] {
        assert_eq!(status.to_argument(), label);
        assert_eq!(Status::from_argument(label), Ok(status));
    }
    assert_eq!(Status::from_argument("fine"), Err(KatcpError::BadArgument));
}
