use bosminer_antminer::fan::{Feedback, Speed};
use bosminer_antminer::monitor::{
    Chain, ChainState, ChainTemperature, Config, ControlDecision, FanControlConfig,
    FanControlMode, Instant, Message, MonitorInner, TempControlConfig, TemperatureAccumulator,
    TickOutcome, RUN_UPDATE_TIMEOUT, START_TIMEOUT, WARM_UP_PERIOD,
};
use bosminer_antminer::sensor::{Celsius, Measurement, Temperature};

fn deg(degrees: i16) -> Celsius {
    Celsius::from_degrees(degrees)
}

fn ok(degrees: i16) -> ChainTemperature {
    ChainTemperature::Measured(deg(degrees))
}

fn secs(s: u64) -> Instant {
    Instant::from_secs(s)
}

/// Test that faking S9 chip temperature from board temperature works
#[test]
fn test_monitor_s9_chip_temp() {
    let temp = Temperature {
        local: Measurement::Measured(deg(10)),
        remote: Measurement::Measured(deg(22)),
    };
    match ChainTemperature::from_s9_sensor(temp) {
        ChainTemperature::Measured(t) => assert_eq!(t, deg(22)),
        _ => panic!("missing temperature"),
    };
    let temp = Temperature {
        local: Measurement::Measured(deg(10)),
        remote: Measurement::OpenCircuit,
    };
    match ChainTemperature::from_s9_sensor(temp) {
        ChainTemperature::Measured(t) => assert_eq!(t, deg(25)),
        _ => panic!("missing temperature"),
    };
    let temp = Temperature {
        local: Measurement::InvalidReading,
        remote: Measurement::OpenCircuit,
    };
    assert_eq!(
        ChainTemperature::from_s9_sensor(temp),
        ChainTemperature::Unknown
    );
}

#[test]
fn test_chip_temp_from_all_readings() {
    let bad = [
        Measurement::OpenCircuit,
        Measurement::ShortCircuit,
        Measurement::InvalidReading,
        Measurement::NotPresent,
    ];
    for &remote in bad.iter() {
        for &local in bad.iter() {
            assert_eq!(
                ChainTemperature::from_s9_sensor(Temperature { local, remote }),
                ChainTemperature::Unknown
            );
        }
        assert_eq!(
            ChainTemperature::from_s9_sensor(Temperature {
                local: Measurement::Measured(deg(-20)),
                remote
            }),
            ok(-5)
        );
        assert_eq!(
            ChainTemperature::from_s9_sensor(Temperature {
                local: remote,
                remote: Measurement::Measured(deg(61))
            }),
            ok(61)
        );
    }
    // the higher of two measurements counts, whichever sensor has it
    assert_eq!(
        ChainTemperature::from_s9_sensor(Temperature {
            local: Measurement::Measured(deg(70)),
            remote: Measurement::Measured(deg(61))
        }),
        ok(70)
    );
    // the offset for a missing chip sensor stays within what a temperature holds
    assert_eq!(
        ChainTemperature::from_s9_sensor(Temperature {
            local: Measurement::Measured(Celsius::from_raw(i32::MAX - 5)),
            remote: Measurement::NotPresent
        }),
        ChainTemperature::Measured(Celsius::from_raw(i32::MAX))
    );
}

fn send(mut state: ChainState, when: Instant, message: Message) -> ChainState {
    state.transition(when, message);
    state
}

/// Test that miner transitions states as expected
#[test]
fn test_monitor_state_transition() {
    let temp = Temperature {
        local: Measurement::Measured(deg(10)),
        remote: Measurement::Measured(deg(22)),
    };
    let now = secs(1000);
    let later = secs(1001);
    let running_state = ChainState::Running {
        started: now,
        last_heartbeat: now,
        temperature: temp.clone(),
    };

    assert!(matches!(
        send(ChainState::Off, later, Message::On),
        ChainState::On(_)
    ));
    assert!(matches!(
        send(ChainState::Off, later, Message::Running(temp.clone())),
        ChainState::Broken(_)
    ));
    assert!(matches!(
        send(ChainState::Off, later, Message::Off),
        ChainState::Broken(_)
    ));

    assert!(matches!(
        send(ChainState::On(now), later, Message::On),
        ChainState::Broken(_)
    ));
    assert!(matches!(
        send(ChainState::On(now), later, Message::Running(temp.clone())),
        ChainState::Running { .. }
    ));
    assert!(matches!(
        send(ChainState::On(now), later, Message::Off),
        ChainState::Off
    ));

    assert!(matches!(
        send(running_state.clone(), later, Message::On),
        ChainState::Broken(_)
    ));
    assert!(matches!(
        send(
            running_state.clone(),
            later,
            Message::Running(temp.clone())
        ),
        ChainState::Running { .. }
    ));
    assert!(matches!(
        send(running_state.clone(), later, Message::Off),
        ChainState::Off
    ));
}

#[test]
fn test_transition_details() {
    let temp = Temperature {
        local: Measurement::Measured(deg(10)),
        remote: Measurement::Measured(deg(22)),
    };
    let hot = Temperature {
        local: Measurement::Measured(deg(50)),
        remote: Measurement::Measured(deg(80)),
    };
    let now = secs(1000);
    let later = secs(1001);
    match send(ChainState::Off, later, Message::On) {
        ChainState::On(started) => assert_eq!(started, later),
        other => panic!("unexpected state {:?}", other),
    }
    match send(ChainState::On(now), later, Message::Running(temp)) {
        ChainState::Running {
            started,
            last_heartbeat,
            temperature,
        } => {
            assert_eq!(started, now);
            assert_eq!(last_heartbeat, later);
            assert_eq!(temperature, temp);
        }
        other => panic!("unexpected state {:?}", other),
    }
    let running = ChainState::Running {
        started: now,
        last_heartbeat: now,
        temperature: temp,
    };
    match send(running, later, Message::Running(hot)) {
        ChainState::Running {
            started,
            last_heartbeat,
            temperature,
        } => {
            assert_eq!(started, now);
            assert_eq!(last_heartbeat, later);
            assert_eq!(temperature, hot);
        }
        other => panic!("unexpected state {:?}", other),
    }
    match send(ChainState::On(now), later, Message::On) {
        ChainState::Broken(why) => assert_eq!(why, "bad state transition"),
        other => panic!("unexpected state {:?}", other),
    }
    // a broken board stays broken
    for message in [Message::On, Message::Running(temp), Message::Off].iter() {
        assert!(matches!(
            send(ChainState::Broken("took too long to start"), later, *message),
            ChainState::Broken(_)
        ));
    }
    let mut state = ChainState::Off;
    state.bad_transition();
    assert!(matches!(state, ChainState::Broken("bad state transition")));
}

/// Test "warm up" period
#[test]
fn test_monitor_warm_up() {
    let temp = Temperature {
        local: Measurement::Measured(deg(10)),
        remote: Measurement::Measured(deg(22)),
    };
    let now = secs(1000);
    let later = secs(1020);
    let warmed_time = secs(1200);
    let running_state = ChainState::Running {
        started: now,
        last_heartbeat: now,
        temperature: temp.clone(),
    };

    assert_eq!(ChainState::Off.is_warming_up(now), false);
    assert_eq!(ChainState::On(now).is_warming_up(now), true);
    assert_eq!(ChainState::On(now).is_warming_up(warmed_time), true);
    assert_eq!(running_state.clone().is_warming_up(now), true);
    assert_eq!(running_state.clone().is_warming_up(later), true);
    assert_eq!(running_state.clone().is_warming_up(warmed_time), false);
}

#[test]
fn test_warm_up_ends_after_ninety_seconds() {
    let temp = Temperature {
        local: Measurement::Measured(deg(10)),
        remote: Measurement::Measured(deg(22)),
    };
    let running = ChainState::Running {
        started: secs(10),
        last_heartbeat: secs(99),
        temperature: temp,
    };
    assert_eq!(WARM_UP_PERIOD, 90_000_000_000);
    assert!(running.is_warming_up(secs(100)));
    assert!(!running.is_warming_up(Instant {
        nanos: 100_000_000_001
    }));
    assert!(!ChainState::Broken("bad state transition").is_warming_up(secs(10)));
    // an instant before the start counts as the start
    assert!(running.is_warming_up(secs(5)));
    assert_eq!(secs(5).duration_since(secs(10)), 0);
    assert_eq!(secs(12).duration_since(secs(10)), 2_000_000_000);
}

fn tick(mut state: ChainState, later: Instant) -> ChainState {
    state.tick(later);
    state
}

/// Test timeouts
#[test]
fn test_monitor_timeouts() {
    let temp = Temperature {
        local: Measurement::Measured(deg(10)),
        remote: Measurement::Measured(deg(22)),
    };
    let now = secs(1000);
    let long = secs(1000 + 10_000);
    let short = secs(1002);
    let running_state = ChainState::Running {
        started: now,
        last_heartbeat: now,
        temperature: temp.clone(),
    };

    // test that chains break when no-one updates them for long (unless they are turned off)
    assert!(matches!(tick(ChainState::Off, long), ChainState::Off));
    assert!(matches!(
        tick(ChainState::On(now), long),
        ChainState::Broken(_)
    ));
    assert!(matches!(
        tick(running_state.clone(), long),
        ChainState::Broken(_)
    ));

    // passing of short time is OK
    assert!(matches!(tick(ChainState::Off, short), ChainState::Off));
    assert!(matches!(
        tick(ChainState::On(now), short),
        ChainState::On(_)
    ));
    assert!(matches!(
        tick(running_state.clone(), short),
        ChainState::Running { .. }
    ));

    // different states have different update timeouts
    assert!(matches!(
        tick(ChainState::On(now), secs(1020)),
        ChainState::On(_)
    ));
    assert!(matches!(
        tick(running_state.clone(), secs(1020)),
        ChainState::Broken(_)
    ));
}

#[test]
fn test_timeouts_to_the_second() {
    let temp = Temperature {
        local: Measurement::Measured(deg(10)),
        remote: Measurement::Measured(deg(22)),
    };
    assert_eq!(START_TIMEOUT, 180_000_000_000);
    assert_eq!(RUN_UPDATE_TIMEOUT, 20_000_000_000);
    // a board that was switched on at 0
    assert!(matches!(
        tick(ChainState::On(secs(0)), secs(179)),
        ChainState::On(_)
    ));
    assert!(matches!(
        tick(ChainState::On(secs(0)), secs(180)),
        ChainState::Broken("took too long to start")
    ));
    assert!(matches!(
        tick(ChainState::On(secs(0)), secs(181)),
        ChainState::Broken("took too long to start")
    ));
    // a board that was last heard of at 0
    let running = ChainState::Running {
        started: secs(0),
        last_heartbeat: secs(0),
        temperature: temp,
    };
    assert!(matches!(tick(running, secs(19)), ChainState::Running { .. }));
    assert!(matches!(
        tick(running, secs(20)),
        ChainState::Broken("failed to send update in time")
    ));
    // a broken board keeps its reason
    assert!(matches!(
        tick(ChainState::Broken("bad state transition"), secs(500)),
        ChainState::Broken("bad state transition")
    ));
}

#[test]
fn test_state_temperature() {
    let temp = Temperature {
        local: Measurement::Measured(deg(10)),
        remote: Measurement::Measured(deg(22)),
    };
    assert_eq!(ChainState::Off.get_temperature(), ChainTemperature::Unknown);
    assert_eq!(
        ChainState::On(secs(1)).get_temperature(),
        ChainTemperature::Unknown
    );
    assert_eq!(
        ChainState::Broken("bad state transition").get_temperature(),
        ChainTemperature::Failed
    );
    let running = ChainState::Running {
        started: secs(0),
        last_heartbeat: secs(0),
        temperature: temp,
    };
    assert_eq!(running.get_temperature(), ok(22));
}

fn test_acc(temp1: ChainTemperature, temp2: ChainTemperature) -> ChainTemperature {
    let mut tacc = TemperatureAccumulator::new();
    tacc.add_chain_temp(temp1);
    tacc.add_chain_temp(temp2);
    tacc.calc_result()
}

/// Test temperature accumulator
#[test]
fn test_monitor_temp_acc() {
    assert_eq!(
        test_acc(ChainTemperature::Unknown, ChainTemperature::Unknown),
        ChainTemperature::Unknown
    );
    assert_eq!(
        test_acc(ChainTemperature::Failed, ChainTemperature::Unknown),
        ChainTemperature::Failed
    );
    assert_eq!(test_acc(ok(10), ChainTemperature::Unknown), ok(10));
    assert_eq!(
        test_acc(ChainTemperature::Unknown, ChainTemperature::Failed),
        ChainTemperature::Failed
    );
    assert_eq!(
        test_acc(ChainTemperature::Failed, ChainTemperature::Failed),
        ChainTemperature::Failed
    );
    assert_eq!(
        test_acc(ok(10), ChainTemperature::Failed),
        ChainTemperature::Failed
    );
    assert_eq!(test_acc(ChainTemperature::Unknown, ok(20)), ok(20));
    assert_eq!(
        test_acc(ChainTemperature::Failed, ok(20)),
        ChainTemperature::Failed
    );
    assert_eq!(test_acc(ok(10), ok(20)), ok(20));
    assert_eq!(test_acc(ok(10), ok(5)), ok(10));
}

#[test]
fn test_temp_acc_of_other_lengths() {
    let acc = TemperatureAccumulator::new();
    assert_eq!(acc.calc_result(), ChainTemperature::Unknown);
    let mut acc = TemperatureAccumulator::new();
    for t in [ok(-30), ChainTemperature::Unknown, ok(-10), ok(-20)].iter() {
        acc.add_chain_temp(*t);
    }
    // the highest measurement counts, also below zero
    assert_eq!(acc.calc_result(), ok(-10));
    acc.add_chain_temp(ChainTemperature::Failed);
    acc.add_chain_temp(ok(90));
    assert_eq!(acc.calc_result(), ChainTemperature::Failed);
    assert_eq!(acc.chain_temperatures.len(), 6);
}

struct Configs {
    all_off: Config,
    fans_on: Config,
    fans_off: Config,
    temp_on: Config,
    both_on: Config,
    both_on_pid: Config,
}

fn configs() -> Configs {
    let temp_config = TempControlConfig {
        dangerous_temp: deg(100),
        hot_temp: deg(80),
    };
    let fan_config = FanControlConfig {
        mode: FanControlMode::FixedSpeed(Speed::new(50)),
        min_fans: 2,
    };
    Configs {
        fans_off: Config {
            fans_on_while_warming_up: true,
            fan_config: Some(FanControlConfig {
                mode: FanControlMode::FixedSpeed(Speed::stopped()),
                min_fans: 2,
            }),
            temp_config: None,
        },
        all_off: Config {
            fans_on_while_warming_up: true,
            fan_config: None,
            temp_config: None,
        },
        fans_on: Config {
            fans_on_while_warming_up: true,
            fan_config: Some(fan_config.clone()),
            temp_config: None,
        },
        temp_on: Config {
            fans_on_while_warming_up: true,
            fan_config: None,
            temp_config: Some(temp_config.clone()),
        },
        both_on: Config {
            fans_on_while_warming_up: true,
            fan_config: Some(fan_config.clone()),
            temp_config: Some(temp_config.clone()),
        },
        both_on_pid: Config {
            fans_on_while_warming_up: true,
            fan_config: Some(FanControlConfig {
                mode: FanControlMode::TargetTemperature(deg(75)),
                min_fans: 2,
            }),
            temp_config: Some(temp_config.clone()),
        },
    }
}

/// Test temperature decision tree (non-exhaustive test)
#[test]
fn test_decide() {
    let dang_temp = ok(150);
    let hot_temp = ok(95);
    let low_temp = ok(50);
    let fan_speed = Speed::new(50);
    let fans_off = Speed::stopped();
    let Configs {
        all_off: all_off_config,
        fans_on: fans_on_config,
        fans_off: fans_off_config,
        temp_on: temp_on_config,
        both_on: both_on_config,
        both_on_pid: both_on_pid_config,
    } = configs();

    assert!(matches!(
        ControlDecision::decide(&all_off_config, 0, dang_temp.clone()).decision,
        ControlDecision::Nothing
    ));
    assert!(matches!(
        ControlDecision::decide(&all_off_config, 0, ChainTemperature::Failed).decision,
        ControlDecision::Nothing
    ));

    assert_eq!(
        ControlDecision::decide(&fans_on_config, 2, dang_temp.clone()).decision,
        ControlDecision::UseFixedSpeed(fan_speed)
    );
    assert_eq!(
        ControlDecision::decide(&fans_on_config, 0, dang_temp.clone()).decision,
        ControlDecision::Shutdown
    );
    assert_eq!(
        ControlDecision::decide(&fans_on_config, 1, dang_temp.clone()).decision,
        ControlDecision::Shutdown
    );
    assert_eq!(
        ControlDecision::decide(&fans_on_config, 2, ChainTemperature::Failed).decision,
        ControlDecision::UseFixedSpeed(fan_speed)
    );

    // fans set to 0 -> do not check if fans are running
    assert_eq!(
        ControlDecision::decide(&fans_off_config, 0, dang_temp.clone()).decision,
        ControlDecision::UseFixedSpeed(fans_off)
    );

    assert_eq!(
        ControlDecision::decide(&temp_on_config, 0, ChainTemperature::Failed).decision,
        ControlDecision::Shutdown
    );
    assert!(matches!(
        ControlDecision::decide(&temp_on_config, 0, ChainTemperature::Unknown).decision,
        ControlDecision::Nothing
    ));
    assert_eq!(
        ControlDecision::decide(&temp_on_config, 0, dang_temp).decision,
        ControlDecision::Shutdown
    );
    assert!(matches!(
        ControlDecision::decide(&temp_on_config, 0, hot_temp).decision,
        ControlDecision::Nothing
    ));

    assert_eq!(
        ControlDecision::decide(&both_on_config, 0, low_temp).decision,
        ControlDecision::Shutdown
    );
    assert_eq!(
        ControlDecision::decide(&both_on_config, 2, dang_temp).decision,
        ControlDecision::Shutdown
    );
    assert_eq!(
        ControlDecision::decide(&both_on_config, 2, ChainTemperature::Failed).decision,
        ControlDecision::Shutdown
    );
    assert_eq!(
        ControlDecision::decide(&both_on_config, 2, ChainTemperature::Unknown).decision,
        ControlDecision::UseFixedSpeed(Speed::full_speed())
    );
    assert_eq!(
        ControlDecision::decide(&both_on_config, 2, hot_temp).decision,
        ControlDecision::UseFixedSpeed(fan_speed)
    );
    assert_eq!(
        ControlDecision::decide(&both_on_config, 2, low_temp).decision,
        ControlDecision::UseFixedSpeed(fan_speed)
    );

    assert_eq!(
        ControlDecision::decide(&both_on_pid_config, 0, low_temp).decision,
        ControlDecision::Shutdown
    );
    assert_eq!(
        ControlDecision::decide(&both_on_pid_config, 2, dang_temp).decision,
        ControlDecision::Shutdown
    );
    assert_eq!(
        ControlDecision::decide(&both_on_pid_config, 2, ChainTemperature::Failed).decision,
        ControlDecision::Shutdown
    );
    assert_eq!(
        ControlDecision::decide(&both_on_pid_config, 2, ChainTemperature::Unknown).decision,
        ControlDecision::UseFixedSpeed(Speed::full_speed())
    );
    assert_eq!(
        ControlDecision::decide(&both_on_pid_config, 2, hot_temp).decision,
        ControlDecision::UseFixedSpeed(Speed::full_speed())
    );
    assert_eq!(
        ControlDecision::decide(&both_on_pid_config, 2, low_temp).decision,
        ControlDecision::UsePid {
            target_temp: deg(75),
            input_temp: deg(50)
        }
    );
}

#[test]
fn test_decide_more_cases() {
    let c = configs();
    // the temperature limits count from the limit on
    assert_eq!(
        ControlDecision::decide(&c.temp_on, 0, ok(100)).decision,
        ControlDecision::Shutdown
    );
    assert_eq!(
        ControlDecision::decide(&c.temp_on, 0, ok(99)).decision,
        ControlDecision::Nothing
    );
    assert_eq!(
        ControlDecision::decide(&c.both_on_pid, 2, ok(80)).decision,
        ControlDecision::UseFixedSpeed(Speed::full_speed())
    );
    assert_eq!(
        ControlDecision::decide(&c.both_on_pid, 2, ok(79)).decision,
        ControlDecision::UsePid {
            target_temp: deg(75),
            input_temp: deg(79)
        }
    );
    // a target temperature without temperature control: full speed
    let misconfigured = Config {
        fans_on_while_warming_up: true,
        fan_config: Some(FanControlConfig {
            mode: FanControlMode::TargetTemperature(deg(75)),
            min_fans: 2,
        }),
        temp_config: None,
    };
    let explained = ControlDecision::decide(&misconfigured, 2, ok(150));
    assert_eq!(
        explained.decision,
        ControlDecision::UseFixedSpeed(Speed::full_speed())
    );
    assert_eq!(explained.reason, "wrong configuration - temp control off");
    assert_eq!(
        ControlDecision::decide(&misconfigured, 1, ok(150)).decision,
        ControlDecision::Shutdown
    );
    // stopped fans are not counted, fans at any other speed are
    let slow = Config {
        fans_on_while_warming_up: true,
        fan_config: Some(FanControlConfig {
            mode: FanControlMode::FixedSpeed(Speed::new(1)),
            min_fans: 1,
        }),
        temp_config: None,
    };
    assert_eq!(
        ControlDecision::decide(&slow, 0, ChainTemperature::Unknown).decision,
        ControlDecision::Shutdown
    );
    assert_eq!(
        ControlDecision::decide(&slow, 1, ChainTemperature::Unknown).decision,
        ControlDecision::UseFixedSpeed(Speed::new(1))
    );
}

#[test]
fn test_decide_reasons() {
    let c = configs();
    let reason = |config: &Config, fans: usize, temp: ChainTemperature| {
        ControlDecision::decide(config, fans, temp).reason
    };
    assert_eq!(reason(&c.all_off, 0, ok(150)), "control disabled");
    assert_eq!(
        reason(&c.temp_on, 0, ChainTemperature::Failed),
        "Shutdown: temperature readout FAILED"
    );
    assert_eq!(
        reason(&c.both_on, 2, ok(101)),
        "Shutdown: temperature 101°C above DANGEROUS"
    );
    assert_eq!(
        reason(&c.both_on, 1, ok(60)),
        "Shutdown: not enough fans (1 < 2)"
    );
    assert_eq!(
        reason(&c.both_on, 2, ChainTemperature::Unknown),
        "Fans full speed: unknown temperature"
    );
    assert_eq!(reason(&c.both_on, 2, ok(60)), "User defined fan 50%");
    assert_eq!(reason(&c.fans_on, 2, ok(60)), "Fans to 50% (user defined)");
    assert_eq!(reason(&c.fans_off, 0, ok(60)), "Fans to 0% (user defined)");
    assert_eq!(
        reason(&c.both_on_pid, 2, ok(95)),
        "Fans full speed: temperature 95°C above HOT"
    );
    assert_eq!(
        reason(&c.both_on_pid, 2, ok(50)),
        "Automatic fan control: input 50°C target 75°C"
    );
}

#[test]
fn test_decide_fan_control_alone() {
    let temp_config = TempControlConfig {
        dangerous_temp: deg(100),
        hot_temp: deg(80),
    };
    let fixed = FanControlConfig {
        mode: FanControlMode::FixedSpeed(Speed::new(30)),
        min_fans: 1,
    };
    let target = FanControlConfig {
        mode: FanControlMode::TargetTemperature(deg(70)),
        min_fans: 1,
    };
    assert_eq!(
        ControlDecision::decide_fan_control(&fixed, &temp_config, ChainTemperature::Failed).decision,
        ControlDecision::UseFixedSpeed(Speed::new(30))
    );
    assert_eq!(
        ControlDecision::decide_fan_control(&target, &temp_config, ok(60)).decision,
        ControlDecision::UsePid {
            target_temp: deg(70),
            input_temp: deg(60)
        }
    );
    assert_eq!(
        ControlDecision::decide_fan_control(&target, &temp_config, ChainTemperature::Unknown)
            .decision,
        ControlDecision::UseFixedSpeed(Speed::full_speed())
    );
    assert_eq!(
        ControlDecision::decide_fan_control_notemp(&fixed).decision,
        ControlDecision::UseFixedSpeed(Speed::new(30))
    );
    assert_eq!(
        ControlDecision::decide_fan_control_notemp(&target).decision,
        ControlDecision::UseFixedSpeed(Speed::full_speed())
    );
}

#[test]
fn test_temperature_text() {
    assert_eq!(ChainTemperature::Unknown.to_string(), "???");
    assert_eq!(ChainTemperature::Failed.to_string(), "Fail");
    assert_eq!(ok(101).to_string(), "101°C");
    assert_eq!(ok(0).to_string(), "0°C");
    assert_eq!(ok(-7).to_string(), "-7°C");
}

fn reading(local: i16, remote: i16) -> Temperature {
    Temperature {
        local: Measurement::Measured(deg(local)),
        remote: Measurement::Measured(deg(remote)),
    }
}

fn two_fans() -> Feedback {
    Feedback {
        rpm: vec![3000, 2900],
    }
}

/// Cold start and normal operation of one board
#[test]
fn test_cold_start() {
    let mut monitor = MonitorInner::new(configs().both_on_pid);
    let board = monitor.register_hashchain(8);
    assert_eq!(board, 0);
    assert!(monitor.handle_message(board, secs(0), Message::On));

    // the board has not reported yet: full speed
    match monitor.do_tick(secs(0), two_fans()) {
        TickOutcome::Publish { fan_speed, status } => {
            assert_eq!(fan_speed, Some(Speed::full_speed()));
            assert_eq!(status.fan_speed, Some(Speed::full_speed()));
            assert_eq!(status.input_temperature, ChainTemperature::Unknown);
            assert_eq!(
                status.decision_explained.decision,
                ControlDecision::UseFixedSpeed(Speed::full_speed())
            );
            assert_eq!(
                status.temperature_accumulator.chain_temperatures,
                vec![ChainTemperature::Unknown]
            );
            assert_eq!(status.fan_feedback.rpm, vec![3000, 2900]);
        }
        other => panic!("unexpected outcome {:?}", other),
    }
    assert_eq!(monitor.current_fan_speed, Some(Speed::full_speed()));

    assert!(monitor.handle_message(board, secs(4), Message::Running(reading(40, 50))));
    match monitor.do_tick(secs(5), two_fans()) {
        TickOutcome::RunPid {
            warm_up_limits,
            target_temp,
            input_temp,
            status,
        } => {
            assert!(warm_up_limits);
            assert_eq!(target_temp, deg(75));
            assert_eq!(input_temp, deg(50));
            assert_eq!(status.input_temperature, ok(50));
            let published = monitor.finish_pid(status, Speed::new(60));
            assert_eq!(published.fan_speed, Some(Speed::new(60)));
            assert_eq!(
                published.decision_explained.decision,
                ControlDecision::UsePid {
                    target_temp: deg(75),
                    input_temp: deg(50)
                }
            );
        }
        other => panic!("unexpected outcome {:?}", other),
    }
    assert_eq!(monitor.current_fan_speed, Some(Speed::new(60)));

    assert!(monitor.handle_message(board, secs(9), Message::Running(reading(45, 55))));
    match monitor.do_tick(secs(10), two_fans()) {
        TickOutcome::RunPid {
            target_temp,
            input_temp,
            ..
        } => {
            assert_eq!(target_temp, deg(75));
            assert_eq!(input_temp, deg(55));
        }
        other => panic!("unexpected outcome {:?}", other),
    }
    assert!(!monitor.failure_state);

    // once the board is warm, the normal limits hold
    assert!(monitor.handle_message(board, secs(89), Message::Running(reading(45, 55))));
    match monitor.do_tick(secs(90), two_fans()) {
        TickOutcome::RunPid { warm_up_limits, .. } => assert!(warm_up_limits),
        other => panic!("unexpected outcome {:?}", other),
    }
    assert!(monitor.handle_message(board, secs(90), Message::Running(reading(45, 55))));
    match monitor.do_tick(secs(91), two_fans()) {
        TickOutcome::RunPid { warm_up_limits, .. } => assert!(!warm_up_limits),
        other => panic!("unexpected outcome {:?}", other),
    }
}

/// A warming board does not call for the warm-up limits where the
/// configuration does not want them
#[test]
fn test_warm_up_limits_can_be_switched_off() {
    let mut config = configs().both_on_pid;
    config.fans_on_while_warming_up = false;
    let mut monitor = MonitorInner::new(config);
    let board = monitor.register_hashchain(8);
    monitor.handle_message(board, secs(0), Message::On);
    monitor.handle_message(board, secs(1), Message::Running(reading(40, 50)));
    match monitor.do_tick(secs(2), two_fans()) {
        TickOutcome::RunPid { warm_up_limits, .. } => assert!(!warm_up_limits),
        other => panic!("unexpected outcome {:?}", other),
    }
}

/// A board that does not start in time
#[test]
fn test_start_timeout() {
    let mut monitor = MonitorInner::new(configs().both_on_pid);
    let board = monitor.register_hashchain(8);
    monitor.handle_message(board, secs(0), Message::On);
    for t in (0..180).step_by(5) {
        assert!(matches!(
            monitor.do_tick(secs(t), two_fans()),
            TickOutcome::Publish { .. }
        ));
        assert!(!monitor.failure_state);
    }
    match monitor.do_tick(secs(180), two_fans()) {
        TickOutcome::Shutdown { reason } => {
            assert_eq!(reason, "Chain 8 is broken: took too long to start")
        }
        other => panic!("unexpected outcome {:?}", other),
    }
    assert!(monitor.failure_state);
    assert!(matches!(monitor.chains[0].state, ChainState::Broken(_)));
    // the board stays broken, and so does the miner
    assert!(matches!(
        monitor.do_tick(secs(185), two_fans()),
        TickOutcome::Shutdown { .. }
    ));
    // after a failure the fans are left at full speed
    assert_eq!(monitor.termination_handler(), Speed::full_speed());
    assert_eq!(monitor.current_fan_speed, Some(Speed::full_speed()));
}

/// A sensor that fails while the board runs
#[test]
fn test_sensor_failure() {
    let mut monitor = MonitorInner::new(configs().both_on_pid);
    let board = monitor.register_hashchain(8);
    monitor.handle_message(board, secs(0), Message::On);
    monitor.handle_message(board, secs(1), Message::Running(reading(50, 60)));
    assert!(matches!(
        monitor.do_tick(secs(2), two_fans()),
        TickOutcome::RunPid { .. }
    ));
    let failed = Temperature {
        local: Measurement::InvalidReading,
        remote: Measurement::OpenCircuit,
    };
    monitor.handle_message(board, secs(3), Message::Running(failed));
    match monitor.do_tick(secs(4), two_fans()) {
        TickOutcome::Publish { fan_speed, status } => {
            assert_eq!(fan_speed, Some(Speed::full_speed()));
            assert_eq!(status.input_temperature, ChainTemperature::Unknown);
            assert_eq!(
                status.decision_explained.reason,
                "Fans full speed: unknown temperature"
            );
        }
        other => panic!("unexpected outcome {:?}", other),
    }
}

/// Too few fans turn
#[test]
fn test_fan_under_count() {
    let mut monitor = MonitorInner::new(configs().both_on_pid);
    let first = monitor.register_hashchain(6);
    let second = monitor.register_hashchain(7);
    assert_eq!((first, second), (0, 1));
    for &board in [first, second].iter() {
        monitor.handle_message(board, secs(0), Message::On);
        monitor.handle_message(board, secs(1), Message::Running(reading(50, 60)));
    }
    let feedback = Feedback {
        rpm: vec![0, 3000, 0, 0],
    };
    assert_eq!(feedback.num_fans_running(), 1);
    match monitor.do_tick(secs(2), feedback) {
        TickOutcome::Shutdown { reason } => {
            assert_eq!(reason, "Shutdown: not enough fans (1 < 2)")
        }
        other => panic!("unexpected outcome {:?}", other),
    }
    assert!(monitor.failure_state);
}

/// The chips get too hot
#[test]
fn test_thermal_runaway() {
    let mut monitor = MonitorInner::new(configs().both_on_pid);
    let board = monitor.register_hashchain(8);
    monitor.handle_message(board, secs(0), Message::On);
    monitor.handle_message(board, secs(1), Message::Running(reading(70, 101)));
    match monitor.do_tick(secs(2), two_fans()) {
        TickOutcome::Shutdown { reason } => {
            assert_eq!(reason, "Shutdown: temperature 101°C above DANGEROUS")
        }
        other => panic!("unexpected outcome {:?}", other),
    }
    assert!(monitor.failure_state);
    assert_eq!(monitor.termination_handler(), Speed::full_speed());
}

#[test]
fn test_termination_without_failure() {
    let mut monitor = MonitorInner::new(configs().all_off);
    assert!(matches!(
        monitor.do_tick(secs(0), two_fans()),
        TickOutcome::Publish {
            fan_speed: None,
            ..
        }
    ));
    assert_eq!(monitor.current_fan_speed, None);
    assert_eq!(monitor.termination_handler(), Speed::stopped());
    assert_eq!(monitor.current_fan_speed, Some(Speed::stopped()));
    monitor.shutdown();
    assert_eq!(monitor.termination_handler(), Speed::full_speed());
}

/// The first broken board stops the tick
#[test]
fn test_tick_stops_at_the_first_broken_board() {
    let mut monitor = MonitorInner::new(configs().both_on);
    let a = monitor.register_hashchain(6);
    let b = monitor.register_hashchain(7);
    let c = monitor.register_hashchain(8);
    monitor.handle_message(a, secs(0), Message::On);
    monitor.handle_message(a, secs(195), Message::Running(reading(50, 60)));
    // the second board gets a message out of order
    monitor.handle_message(b, secs(0), Message::Off);
    // the third one is overdue, but the tick does not get that far
    monitor.handle_message(c, secs(0), Message::On);
    match monitor.do_tick(secs(200), two_fans()) {
        TickOutcome::Shutdown { reason } => {
            assert_eq!(reason, "Chain 7 is broken: bad state transition")
        }
        other => panic!("unexpected outcome {:?}", other),
    }
    assert!(matches!(monitor.chains[0].state, ChainState::Running { .. }));
    assert!(matches!(monitor.chains[1].state, ChainState::Broken(_)));
    assert!(matches!(monitor.chains[2].state, ChainState::On(_)));
    // a message for a board that is not there changes nothing
    assert!(!monitor.handle_message(3, secs(201), Message::On));
    assert_eq!(monitor.chains.len(), 3);
}

#[test]
fn test_monitor_configuration() {
    let mut monitor = MonitorInner::new(configs().all_off);
    monitor.set_config(configs().fans_on);
    match monitor.do_tick(secs(0), two_fans()) {
        TickOutcome::Publish { fan_speed, status } => {
            assert_eq!(fan_speed, Some(Speed::new(50)));
            assert!(status.config.fan_config.is_some());
            let copy = status.clone();
            assert_eq!(copy.fan_speed, Some(Speed::new(50)));
            assert_eq!(copy.decision_explained.reason, "Fans to 50% (user defined)");
        }
        other => panic!("unexpected outcome {:?}", other),
    }
    monitor.set_fan_speed(Speed::new(20));
    assert_eq!(monitor.current_fan_speed, Some(Speed::new(20)));
    let chain = Chain::new(7);
    assert_eq!(chain.hashboard_idx, 7);
    assert!(matches!(chain.state, ChainState::Off));
}
