use std::convert::Infallible;

use rust_snake::signal::{
    DispatchSignalError, EmittedSignals, ListenSignalError, RegisterSignalError, SignalBusBuilder, SignalEmitter,
    SignalListener, SignalQueue,
};
use rust_snake::GameObjectId;

const APPLE_EATEN: u64 = 1;
const GAME_PAUSE_CHANGED: u64 = 2;
const GAME_OVER: u64 = 3;

#[derive(Clone, Copy, Debug, PartialEq)]
enum TestSignal {
    AppleEaten { apple_id: GameObjectId },
    GamePauseChanged,
    GameOver,
}

#[derive(Default)]
struct Context {
    apple_ids_received_first: Vec<GameObjectId>,
    apple_ids_received_second: Vec<GameObjectId>,
    signals_received: Vec<&'static str>,
}

enum Listener {
    RecordAppleFirst,
    RecordAppleSecond,
    Record(&'static str),
    Emit(SignalEmitter<TestSignal>, TestSignal),
    Fail(&'static str),
}

impl SignalListener<TestSignal, Context, &'static str> for Listener {
    fn handles(
        &self,
        _signal: TestSignal,
        _before: Context,
        _after: Context,
        _emitted: EmittedSignals<TestSignal>,
        _result: Result<(), &'static str>,
    ) -> bool {
        true
    }

    fn handle(
        &self,
        signal: &TestSignal,
        context: &mut Context,
        signals: &mut SignalQueue<TestSignal>,
    ) -> Result<(), &'static str> {
        match self {
            Listener::RecordAppleFirst => {
                if let TestSignal::AppleEaten { apple_id } = signal {
                    context.apple_ids_received_first.push(*apple_id);
                }
            }
            Listener::RecordAppleSecond => {
                if let TestSignal::AppleEaten { apple_id } = signal {
                    context.apple_ids_received_second.push(*apple_id);
                }
            }
            Listener::Record(name) => context.signals_received.push(name),
            Listener::Emit(emitter, emitted) => emitter.emit(signals, *emitted),
            Listener::Fail(message) => return Err(message),
        }
        Ok(())
    }
}

#[test]
fn dispatches_an_emitted_signal_to_every_subscriber() {
    let mut signal_bus_builder = SignalBusBuilder::<TestSignal, Listener>::new();
    let signal_emitter = signal_bus_builder.register(APPLE_EATEN).unwrap();
    signal_bus_builder.on(APPLE_EATEN, Listener::RecordAppleFirst);
    signal_bus_builder.on(APPLE_EATEN, Listener::RecordAppleSecond);
    let mut signal_bus = signal_bus_builder.build();
    let mut context = Context::default();
    let apple_id = GameObjectId::new();

    signal_bus.emit(&signal_emitter, TestSignal::AppleEaten { apple_id });

    assert!(context.apple_ids_received_first.is_empty());
    assert!(context.apple_ids_received_second.is_empty());

    signal_bus.dispatch_pending(&mut context).unwrap();

    assert_eq!(context.apple_ids_received_first, [apple_id]);
    assert_eq!(context.apple_ids_received_second, [apple_id]);
}

#[test]
fn dispatches_signals_in_emission_order() {
    let mut signal_bus_builder = SignalBusBuilder::<TestSignal, Listener>::new();
    let game_pause_changed_emitter = signal_bus_builder.register(GAME_PAUSE_CHANGED).unwrap();
    let game_over_emitter = signal_bus_builder.register(GAME_OVER).unwrap();
    let apple_eaten_emitter = signal_bus_builder.register(APPLE_EATEN).unwrap();
    signal_bus_builder.on(GAME_PAUSE_CHANGED, Listener::Record("game_pause_changed"));
    signal_bus_builder.on(GAME_OVER, Listener::Record("game_over"));
    signal_bus_builder.on(APPLE_EATEN, Listener::Record("apple_eaten"));
    let mut signal_bus = signal_bus_builder.build();
    let mut context = Context::default();

    signal_bus.emit(&game_pause_changed_emitter, TestSignal::GamePauseChanged);
    signal_bus.emit(&game_over_emitter, TestSignal::GameOver);
    signal_bus.emit(
        &apple_eaten_emitter,
        TestSignal::AppleEaten {
            apple_id: GameObjectId::new(),
        },
    );
    signal_bus.dispatch_pending(&mut context).unwrap();

    assert_eq!(
        context.signals_received,
        ["game_pause_changed", "game_over", "apple_eaten"]
    );
}

#[test]
fn defers_signals_emitted_by_subscribers_until_the_next_dispatch() {
    let mut signal_bus_builder = SignalBusBuilder::<TestSignal, Listener>::new();
    let game_pause_changed_emitter = signal_bus_builder.register(GAME_PAUSE_CHANGED).unwrap();
    let game_over_emitter = signal_bus_builder.register(GAME_OVER).unwrap();
    signal_bus_builder.on(
        GAME_OVER,
        Listener::Emit(game_pause_changed_emitter.clone(), TestSignal::GamePauseChanged),
    );
    signal_bus_builder.on(GAME_OVER, Listener::Record("game_over"));
    signal_bus_builder.on(GAME_PAUSE_CHANGED, Listener::Record("game_pause_changed"));
    let mut signal_bus = signal_bus_builder.build();
    let mut context = Context::default();

    signal_bus.emit(&game_over_emitter, TestSignal::GameOver);
    signal_bus.dispatch_pending(&mut context).unwrap();

    assert_eq!(context.signals_received, ["game_over"]);

    signal_bus.dispatch_pending(&mut context).unwrap();

    assert_eq!(
        context.signals_received,
        ["game_over", "game_pause_changed"]
    );
}

#[test]
fn registering_a_kind_twice_and_listening_to_an_unknown_kind_fail() {
    let mut signal_bus_builder = SignalBusBuilder::<TestSignal, Listener>::new();
    assert!(signal_bus_builder.register(GAME_OVER).is_ok());
    assert_eq!(
        signal_bus_builder.register(GAME_OVER).err(),
        Some(RegisterSignalError { signal_type: GAME_OVER })
    );
    assert_eq!(
        signal_bus_builder.try_on(APPLE_EATEN, Listener::Record("apple_eaten")),
        Err(ListenSignalError { signal_type: APPLE_EATEN })
    );
    assert_eq!(
        signal_bus_builder.try_on(GAME_OVER, Listener::Record("game_over")),
        Ok(())
    );
}

#[test]
fn a_failing_listener_stops_the_dispatch() {
    let mut signal_bus_builder = SignalBusBuilder::<TestSignal, Listener>::new();
    let game_over_emitter = signal_bus_builder.register(GAME_OVER).unwrap();
    signal_bus_builder.on(GAME_OVER, Listener::Record("first"));
    signal_bus_builder.try_on(GAME_OVER, Listener::Fail("broken")).unwrap();
    signal_bus_builder.on(GAME_OVER, Listener::Record("never"));
    let mut signal_bus = signal_bus_builder.build();
    let mut context = Context::default();
    signal_bus.emit(&game_over_emitter, TestSignal::GameOver);
    signal_bus.emit(&game_over_emitter, TestSignal::GameOver);

    assert_eq!(
        signal_bus.dispatch_pending(&mut context),
        Err(DispatchSignalError::Handler("broken"))
    );
    assert_eq!(context.signals_received, ["first"]);
    assert_eq!(signal_bus.dispatch_pending(&mut context), Ok(()));
    assert_eq!(context.signals_received, ["first"]);
    let _: Option<Infallible> = None;
}

#[test]
fn signal_errors_name_the_kind() {
    assert_eq!(
        RegisterSignalError { signal_type: 7 }.message(),
        "signal 7 is already registered"
    );
    assert_eq!(
        ListenSignalError { signal_type: 42 }.message(),
        "signal 42 is not registered"
    );
}

#[test]
fn errors_of_a_listener_added_with_on_are_ignored() {
    let mut signal_bus_builder = SignalBusBuilder::<TestSignal, Listener>::new();
    let game_over_emitter = signal_bus_builder.register(GAME_OVER).unwrap();
    signal_bus_builder.on(GAME_OVER, Listener::Fail("ignored"));
    signal_bus_builder.on(GAME_OVER, Listener::Record("after"));
    let mut signal_bus = signal_bus_builder.build();
    let mut context = Context::default();
    signal_bus.emit(&game_over_emitter, TestSignal::GameOver);

    assert_eq!(signal_bus.dispatch_pending(&mut context), Ok(()));
    assert_eq!(context.signals_received, ["after"]);
}
