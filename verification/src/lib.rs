//! A collection of self-contained numeric oracles: pure functions from
//! fixed-width integer inputs to a fixed-width integer output, with no shared
//! state and no I/O. The most substantial oracle is a toy RSA encryption
//! engine; the others follow a common validate / compute / degrade / combine
//! skeleton over saturating integer arithmetic, some of them running parts of
//! their formulas through arbitrary-precision integers.

pub mod arith;
pub mod bits;
pub mod data_provenance;
pub mod defi_transaction;
pub mod energy_usage;
pub mod financial_protocol;
pub mod game_logic;
pub mod regulatory_compliance;
pub mod smart_contract_audit;
pub mod bignum;
pub mod toy_rsa;
