//! The values of `kind` that the session manager knows.
use vstd::prelude::*;

verus! {

/// An ordinary client.
pub const CLIENT: &'static str = "client";

/// A Vanessa test manager.
pub const VANESSA_MANAGER: &'static str = "vanessa_manager";

/// A client under test by Vanessa.
pub const VANESSA_TEST_CLIENT: &'static str = "vanessa_test_client";

/// A client that runs YaXUnit tests.
pub const YAXUNIT_RUNNER: &'static str = "yaxunit_runner";

} // verus!
