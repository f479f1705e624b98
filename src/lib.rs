//! Multi-tenant learning-management core: tenant provisioning and routing,
//! role-based access control, grade recording and aggregation, and the
//! pre-provisioned identity linking workflow.

pub mod error;
pub mod user;
pub mod utils;
pub mod router;
pub mod inspection;
pub mod request_routing;
pub mod course;
pub mod quiz;
pub mod grade;
pub mod pre_provision;
pub mod tenant;
pub mod rbac;
pub mod grades;
pub mod statistics;
pub mod users;
pub mod courses;
pub mod linking;
pub mod quizzes;
pub mod restore;
pub mod key_order;

pub use error::{LMSError, LMSResult};
pub use user::{Tenant, TenantSettings, User, UserRole};
pub use utils::{generate_id, generate_random_string, is_valid_email, is_valid_subdomain};
