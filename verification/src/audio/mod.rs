pub mod discovery;
pub mod router;
