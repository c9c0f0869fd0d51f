//! A Mongoose-style object-document mapper for MongoDB: documents, schemas
//! and validation, a chainable query builder, pagination, aggregation
//! pipelines, index definitions, references, virtuals and lifecycle
//! middleware.
pub mod aggregation;
pub mod connection;
pub mod document;
pub mod error;
pub mod index;
pub mod middleware;
pub mod model;
pub mod pagination;
pub mod populate;
pub mod query;
pub mod schema;
pub mod text;
pub mod virtual_fields;

pub use aggregation::AggregationPipeline;
pub use connection::Mongrel;
pub use document::{Bson, Document, ObjectId};
pub use error::MongooseError;
pub use index::{IndexBuilder, IndexDef, MongooseIndexes};
pub use middleware::{HookEvent, MiddlewareRegistry, Step};
pub use pagination::{PaginateBuilder, PaginatedResult};
pub use populate::{complete_ref, Ref};
pub use query::{QueryBuilder, SortDir};
pub use virtual_fields::{Virtuals, WithVirtuals};
