use differential_logging::attribute::{AsAid, AttributeRegistry, SIZE_ATTRIBUTE};
use differential_logging::event::{EventBatch, EventKind, RawEvent, Value};
use differential_logging::source::DifferentialLogging;
use std::time::Duration;

/// A key that holds its name in upper case.
#[derive(Debug, PartialEq, Eq, Clone)]
struct Shouted(String);

impl AsAid for Shouted {
    fn from_name(name: &'static str) -> Self {
        Shouted(name.to_uppercase())
    }

    fn same(&self, other: &Self) -> bool {
        self.0 == other.0
    }

    fn duplicate(&self) -> Self {
        self.clone()
    }
}

#[test]
fn keys_of_another_type_are_routed_by_name() {
    let requested = vec![Shouted::from_name("other"), Shouted::from_name(SIZE_ATTRIBUTE)];
    let registry = AttributeRegistry::new(&requested);
    assert_eq!(registry.resolve(&Shouted("DIFFERENTIAL.EVENT/SIZE".to_string())), Some(1));
    let logging = DifferentialLogging { attributes: requested };
    let log = vec![EventBatch {
        time: Duration::from_millis(1),
        events: vec![RawEvent {
            logical_time: Duration::from_millis(1),
            worker_id: 0,
            kind: EventKind::Batch { operator_id: 2, length: 3 },
        }],
    }];
    let streams = logging.source(&log);
    assert_eq!(streams[0].0, Shouted("OTHER".to_string()));
    assert!(streams[0].2.deliveries()[0].tuples.is_empty());
    assert_eq!(
        streams[1].2.deliveries()[0].tuples,
        vec![((Value::Eid(2), Value::Number(3)), Duration::from_millis(1), 1isize)]
    );
}
