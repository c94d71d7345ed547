//! Sensor telemetry ingestion: decoding, unit normalization, fan-out to a
//! durable record log, and cooperative shutdown.

pub mod decimal;
pub mod decode;
pub mod pipeline;
pub mod reading;

pub use decimal::Decimal;
pub use decode::DecodeError;
pub use decode::decode;
pub use pipeline::Collector;
pub use reading::SensorReading;
