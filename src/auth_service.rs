//! A stand-alone login service with one fixed administrator credential.
use vstd::prelude::*;

verus! {

/// The outcome of an administrator login.
pub struct AdminLogin {
    pub success: bool,
    pub message: String,
}

/// Accepts only the built-in administrator credential.
#[derive(Debug, Clone, Copy)]
pub struct AuthService;

impl AuthService {
    /// The service.
    pub fn new() -> (r: AuthService) {
        AuthService
    }

    /// Succeeds exactly for email `admin` with password `password`.
    pub fn login(&self, email: &str, password: &str) -> (r: AdminLogin)
        ensures
            r.success == (email@ == "admin"@ && password@ == "password"@),
            r.success ==> r.message@ == "Login successful"@,
            !r.success ==> r.message@ == "Invalid credentials"@,
    {
        let success = email.to_owned() == "admin".to_owned() && password.to_owned()
            == "password".to_owned();
        if success {
            AdminLogin { success, message: "Login successful".to_owned() }
        } else {
            AdminLogin { success, message: "Invalid credentials".to_owned() }
        }
    }
}

} // verus!
