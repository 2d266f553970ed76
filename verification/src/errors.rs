//! Error taxonomy of the exchange engine.
//!
//! Every fallible operation returns a tagged [`ErrorKind`]; there is no
//! exception-based control flow.  Validation errors abort an operation
//! before any state is mutated; internal-logic errors are defensive checks
//! that indicate an engine defect.

use vstd::prelude::*;

use crate::fp::Error as FpError;

verus! {

#[derive(Clone, Copy, Debug, PartialEq, Eq, Structural)]
pub enum ErrorKind {
    AccountNotRegistered,
    TokensStorageNotEmpty,
    TokenNotRegistered,
    NotEnoughTokens,
    NonZeroTokenBalance,
    IllegalWithdrawAmount,
    DepositSenderMustBeSigner,
    UnexpectedRegisterAccount,
    DepositAlreadyHandled,
    DepositNotHandled,
    DepositNotAllowed,
    WithdrawInProgress,
    DepositWouldOverflow,
    WrongActionResult,
    Slippage,
    AtLeastOneSwap,
    InsufficientLiquidity,
    SwapAmountTooSmall,
    SwapAmountTooLarge,
    InvalidParams,
    PoolNotRegistered,
    TokenDuplicates,
    PermissionDenied,
    GuardChangeStateDenied,
    IllegalFee,
    WrongRatio,
    LiquidityTooSmall,
    LiquidityTooBig,
    PositionAlreadyExists,
    PositionDoesNotExist,
    UserHasPositions,
    NotYourPosition,
    ConvOverflow,
    ConvSourceNaN,
    ConvNegativeToUnsigned,
    ConvPrecisionLoss,
    PayableAPISuspended,
    InternalTickNotFound,
    InternalTickNotDeleted,
    InternalDepositMoreThanMax,
    InternalLogicError,
    PriceTickOutOfBounds,
}

impl ErrorKind {
    /// Map a numeric conversion failure to the engine taxonomy.
    pub fn from_fp(e: FpError) -> (r: ErrorKind)
        ensures
            r == match e {
                FpError::Overflow => ErrorKind::ConvOverflow,
                FpError::NaN => ErrorKind::ConvSourceNaN,
                FpError::NegativeToUnsigned => ErrorKind::ConvNegativeToUnsigned,
                FpError::PrecisionLoss => ErrorKind::ConvPrecisionLoss,
            },
    {
        match e {
            FpError::Overflow => ErrorKind::ConvOverflow,
            FpError::NaN => ErrorKind::ConvSourceNaN,
            FpError::NegativeToUnsigned => ErrorKind::ConvNegativeToUnsigned,
            FpError::PrecisionLoss => ErrorKind::ConvPrecisionLoss,
        }
    }

    /// Short machine-readable name, for diagnostics.
    pub fn describe(&self) -> String {
        match self {
            ErrorKind::AccountNotRegistered => "account not registered".to_string(),
            ErrorKind::TokensStorageNotEmpty => "tokens storage not empty".to_string(),
            ErrorKind::TokenNotRegistered => "token not registered".to_string(),
            ErrorKind::NotEnoughTokens => "not enough tokens".to_string(),
            ErrorKind::NonZeroTokenBalance => "non-zero token balance".to_string(),
            ErrorKind::IllegalWithdrawAmount => "illegal withdraw amount".to_string(),
            ErrorKind::DepositSenderMustBeSigner => "deposit sender must be signer".to_string(),
            ErrorKind::UnexpectedRegisterAccount => "unexpected register account".to_string(),
            ErrorKind::DepositAlreadyHandled => "deposit already handled".to_string(),
            ErrorKind::DepositNotHandled => "deposit not handled".to_string(),
            ErrorKind::DepositNotAllowed => "deposit not allowed".to_string(),
            ErrorKind::WithdrawInProgress => "withdraw in progress".to_string(),
            ErrorKind::DepositWouldOverflow => "deposit would overflow".to_string(),
            ErrorKind::WrongActionResult => "wrong action result".to_string(),
            ErrorKind::Slippage => "slippage".to_string(),
            ErrorKind::AtLeastOneSwap => "at least one swap".to_string(),
            ErrorKind::InsufficientLiquidity => "insufficient liquidity".to_string(),
            ErrorKind::SwapAmountTooSmall => "swap amount too small".to_string(),
            ErrorKind::SwapAmountTooLarge => "swap amount too large".to_string(),
            ErrorKind::InvalidParams => "invalid params".to_string(),
            ErrorKind::PoolNotRegistered => "pool not registered".to_string(),
            ErrorKind::TokenDuplicates => "token duplicates".to_string(),
            ErrorKind::PermissionDenied => "permission denied".to_string(),
            ErrorKind::GuardChangeStateDenied => "guard change state denied".to_string(),
            ErrorKind::IllegalFee => "illegal fee".to_string(),
            ErrorKind::WrongRatio => "wrong ratio".to_string(),
            ErrorKind::LiquidityTooSmall => "liquidity too small".to_string(),
            ErrorKind::LiquidityTooBig => "liquidity too big".to_string(),
            ErrorKind::PositionAlreadyExists => "position already exists".to_string(),
            ErrorKind::PositionDoesNotExist => "position does not exist".to_string(),
            ErrorKind::UserHasPositions => "user has positions".to_string(),
            ErrorKind::NotYourPosition => "not your position".to_string(),
            ErrorKind::ConvOverflow => "conversion overflow".to_string(),
            ErrorKind::ConvSourceNaN => "conversion source nan".to_string(),
            ErrorKind::ConvNegativeToUnsigned => "conversion negative to unsigned".to_string(),
            ErrorKind::ConvPrecisionLoss => "conversion precision loss".to_string(),
            ErrorKind::PayableAPISuspended => "payable api suspended".to_string(),
            ErrorKind::InternalTickNotFound => "internal tick not found".to_string(),
            ErrorKind::InternalTickNotDeleted => "internal tick not deleted".to_string(),
            ErrorKind::InternalDepositMoreThanMax => "internal deposit more than max".to_string(),
            ErrorKind::InternalLogicError => "internal logic error".to_string(),
            ErrorKind::PriceTickOutOfBounds => "price tick out of bounds".to_string(),
        }
    }
}

} // verus!
