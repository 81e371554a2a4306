use vstd::prelude::*;

verus! {
/// The errors that the engine and its callers report, grouped by the HTTP
/// status they are surfaced with.
#[derive(Clone, Copy, Debug, PartialEq, Eq, Structural)]
pub enum ApiError {
    BadRequest,
    ValidationFailed,
    InvalidInput,
    InvalidFormat,
    MissingField,
    InvalidFieldValue,
    InvalidSum,
    Any400,
    Unauthorized,
    InvalidCredentials,
    InvalidToken,
    TokenExpired,
    TokenMissing,
    Any401,
    NoMoney,
    PaymentRequired,
    Any402,
    Forbidden,
    InsufficientPermissions,
    AccessDenied,
    Any403,
    NotFound,
    UserNotFound,
    ResourceNotFound,
    EndpointNotFound,
    Any404,
    Conflict,
    AlreadyExists,
    DuplicateEntry,
    ResourceLocked,
    Any409,
    UnprocessableEntity,
    InvalidState,
    Any422,
    InternalServerError,
    DatabaseError,
    ServiceError,
    ConfigurationError,
    Any500,
    BadGateway,
    ExternalServiceError,
    Any502,
    ServiceUnavailable,
    MaintenanceMode,
    Any503,
    GatewayTimeout,
}

/// The HTTP status code under which an error is reported.
pub open spec fn status_of(e: ApiError) -> u16 {
    match e {
        ApiError::BadRequest | ApiError::ValidationFailed | ApiError::InvalidInput | ApiError::InvalidFormat | ApiError::MissingField | ApiError::InvalidFieldValue | ApiError::InvalidSum | ApiError::Any400 => 400,
        ApiError::Unauthorized | ApiError::InvalidCredentials | ApiError::InvalidToken | ApiError::TokenExpired | ApiError::TokenMissing | ApiError::Any401 => 401,
        ApiError::NoMoney | ApiError::PaymentRequired | ApiError::Any402 => 402,
        ApiError::Forbidden | ApiError::InsufficientPermissions | ApiError::AccessDenied | ApiError::Any403 => 403,
        ApiError::NotFound | ApiError::UserNotFound | ApiError::ResourceNotFound | ApiError::EndpointNotFound | ApiError::Any404 => 404,
        ApiError::Conflict | ApiError::AlreadyExists | ApiError::DuplicateEntry | ApiError::ResourceLocked | ApiError::Any409 => 409,
        ApiError::UnprocessableEntity | ApiError::InvalidState | ApiError::Any422 => 422,
        ApiError::InternalServerError | ApiError::DatabaseError | ApiError::ServiceError | ApiError::ConfigurationError | ApiError::Any500 => 500,
        ApiError::BadGateway | ApiError::ExternalServiceError | ApiError::Any502 => 502,
        ApiError::ServiceUnavailable | ApiError::MaintenanceMode | ApiError::Any503 => 503,
        ApiError::GatewayTimeout => 504,
    }
}

/// The human-readable message of an error; the grouping variants carry none.
pub open spec fn message_of(e: ApiError) -> Seq<char> {
    match e {
        ApiError::BadRequest => "Bad request"@,
        ApiError::ValidationFailed => "Validation failed"@,
        ApiError::InvalidInput => "Invalid input provided"@,
        ApiError::InvalidFormat => "Invalid format"@,
        ApiError::MissingField => "Required field is missing"@,
        ApiError::InvalidFieldValue => "Invalid field value"@,
        ApiError::InvalidSum => "Invalid sum"@,
        ApiError::Any400 => ""@,
        ApiError::Unauthorized => "Unauthorized"@,
        ApiError::InvalidCredentials => "Invalid credentials"@,
        ApiError::InvalidToken => "Invalid authentication token"@,
        ApiError::TokenExpired => "Token has expired"@,
        ApiError::TokenMissing => "Authentication token is missing"@,
        ApiError::Any401 => ""@,
        ApiError::NoMoney => "No money, no honey"@,
        ApiError::PaymentRequired => "Payment required"@,
        ApiError::Any402 => ""@,
        ApiError::Forbidden => "Forbidden"@,
        ApiError::InsufficientPermissions => "Insufficient permissions"@,
        ApiError::AccessDenied => "Access denied"@,
        ApiError::Any403 => ""@,
        ApiError::NotFound => "Resource not found"@,
        ApiError::UserNotFound => "User not found"@,
        ApiError::ResourceNotFound => "Requested resource not found"@,
        ApiError::EndpointNotFound => "Endpoint not found"@,
        ApiError::Any404 => ""@,
        ApiError::Conflict => "Conflict"@,
        ApiError::AlreadyExists => "Resource already exists"@,
        ApiError::DuplicateEntry => "Duplicate entry"@,
        ApiError::ResourceLocked => "Resource is locked"@,
        ApiError::Any409 => ""@,
        ApiError::UnprocessableEntity => "Unprocessable entity"@,
        ApiError::InvalidState => "Invalid state"@,
        ApiError::Any422 => ""@,
        ApiError::InternalServerError => "Internal server error"@,
        ApiError::DatabaseError => "Database error occurred"@,
        ApiError::ServiceError => "Service error occurred"@,
        ApiError::ConfigurationError => "Configuration error"@,
        ApiError::Any500 => ""@,
        ApiError::BadGateway => "Bad gateway"@,
        ApiError::ExternalServiceError => "External service error"@,
        ApiError::Any502 => ""@,
        ApiError::ServiceUnavailable => "Service unavailable"@,
        ApiError::MaintenanceMode => "Service is in maintenance mode"@,
        ApiError::Any503 => ""@,
        ApiError::GatewayTimeout => "Gateway timeout"@,
    }
}

impl ApiError {
    /// The HTTP status code of this error.
    pub fn status_code(&self) -> (r: u16)
        ensures
            r == status_of(*self),
    {
        match self {
            ApiError::BadRequest | ApiError::ValidationFailed | ApiError::InvalidInput | ApiError::InvalidFormat | ApiError::MissingField | ApiError::InvalidFieldValue | ApiError::InvalidSum | ApiError::Any400 => 400,
            ApiError::Unauthorized | ApiError::InvalidCredentials | ApiError::InvalidToken | ApiError::TokenExpired | ApiError::TokenMissing | ApiError::Any401 => 401,
            ApiError::NoMoney | ApiError::PaymentRequired | ApiError::Any402 => 402,
            ApiError::Forbidden | ApiError::InsufficientPermissions | ApiError::AccessDenied | ApiError::Any403 => 403,
            ApiError::NotFound | ApiError::UserNotFound | ApiError::ResourceNotFound | ApiError::EndpointNotFound | ApiError::Any404 => 404,
            ApiError::Conflict | ApiError::AlreadyExists | ApiError::DuplicateEntry | ApiError::ResourceLocked | ApiError::Any409 => 409,
            ApiError::UnprocessableEntity | ApiError::InvalidState | ApiError::Any422 => 422,
            ApiError::InternalServerError | ApiError::DatabaseError | ApiError::ServiceError | ApiError::ConfigurationError | ApiError::Any500 => 500,
            ApiError::BadGateway | ApiError::ExternalServiceError | ApiError::Any502 => 502,
            ApiError::ServiceUnavailable | ApiError::MaintenanceMode | ApiError::Any503 => 503,
            ApiError::GatewayTimeout => 504,
        }
    }

    /// The message shown beside the error code.
    pub fn message(&self) -> (r: &'static str)
        ensures
            r@ == message_of(*self),
    {
        match self {
            ApiError::BadRequest => "Bad request",
            ApiError::ValidationFailed => "Validation failed",
            ApiError::InvalidInput => "Invalid input provided",
            ApiError::InvalidFormat => "Invalid format",
            ApiError::MissingField => "Required field is missing",
            ApiError::InvalidFieldValue => "Invalid field value",
            ApiError::InvalidSum => "Invalid sum",
            ApiError::Any400 => "",
            ApiError::Unauthorized => "Unauthorized",
            ApiError::InvalidCredentials => "Invalid credentials",
            ApiError::InvalidToken => "Invalid authentication token",
            ApiError::TokenExpired => "Token has expired",
            ApiError::TokenMissing => "Authentication token is missing",
            ApiError::Any401 => "",
            ApiError::NoMoney => "No money, no honey",
            ApiError::PaymentRequired => "Payment required",
            ApiError::Any402 => "",
            ApiError::Forbidden => "Forbidden",
            ApiError::InsufficientPermissions => "Insufficient permissions",
            ApiError::AccessDenied => "Access denied",
            ApiError::Any403 => "",
            ApiError::NotFound => "Resource not found",
            ApiError::UserNotFound => "User not found",
            ApiError::ResourceNotFound => "Requested resource not found",
            ApiError::EndpointNotFound => "Endpoint not found",
            ApiError::Any404 => "",
            ApiError::Conflict => "Conflict",
            ApiError::AlreadyExists => "Resource already exists",
            ApiError::DuplicateEntry => "Duplicate entry",
            ApiError::ResourceLocked => "Resource is locked",
            ApiError::Any409 => "",
            ApiError::UnprocessableEntity => "Unprocessable entity",
            ApiError::InvalidState => "Invalid state",
            ApiError::Any422 => "",
            ApiError::InternalServerError => "Internal server error",
            ApiError::DatabaseError => "Database error occurred",
            ApiError::ServiceError => "Service error occurred",
            ApiError::ConfigurationError => "Configuration error",
            ApiError::Any500 => "",
            ApiError::BadGateway => "Bad gateway",
            ApiError::ExternalServiceError => "External service error",
            ApiError::Any502 => "",
            ApiError::ServiceUnavailable => "Service unavailable",
            ApiError::MaintenanceMode => "Service is in maintenance mode",
            ApiError::Any503 => "",
            ApiError::GatewayTimeout => "Gateway timeout",
        }
    }
}

} // verus!
