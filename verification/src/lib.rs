//! Resource groups: a forest of typed groups, the resources that are members
//! of them, and the rules under which both may change.

pub mod canonical;
pub mod decimal;
pub mod dto;
pub mod error;
pub mod extract;
pub mod forest;
pub mod group_service;
pub mod hierarchy_filter;
pub mod ids;
pub mod json;
pub mod membership_repo;
pub mod membership_service;
pub mod models;
pub mod odata;
pub mod operations;
pub mod routes;
pub mod rows;
pub mod text;
pub mod tombstone;
pub mod type_repo;
pub mod validation;
