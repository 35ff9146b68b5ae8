//! The well-known trading-pair and asset names the treasury works with.

use vstd::prelude::*;

use crate::types::Symbol;

verus! {

pub open spec fn kale_usd_text() -> Seq<u8> {
    seq![75u8, 65u8, 76u8, 69u8, 95u8, 85u8, 83u8, 68u8]
}

pub open spec fn btc_usd_text() -> Seq<u8> {
    seq![66u8, 84u8, 67u8, 95u8, 85u8, 83u8, 68u8]
}

pub open spec fn usdc_usd_text() -> Seq<u8> {
    seq![85u8, 83u8, 68u8, 67u8, 95u8, 85u8, 83u8, 68u8]
}

pub open spec fn kale_usdc_text() -> Seq<u8> {
    seq![75u8, 65u8, 76u8, 69u8, 95u8, 85u8, 83u8, 68u8, 67u8]
}

pub open spec fn btc_usdc_text() -> Seq<u8> {
    seq![66u8, 84u8, 67u8, 95u8, 85u8, 83u8, 68u8, 67u8]
}

pub open spec fn kale_text() -> Seq<u8> {
    seq![75u8, 65u8, 76u8, 69u8]
}

pub open spec fn btc_text() -> Seq<u8> {
    seq![66u8, 84u8, 67u8]
}

pub open spec fn usdc_text() -> Seq<u8> {
    seq![85u8, 83u8, 68u8, 67u8]
}

pub fn kale_usd_symbol() -> (s: Symbol)
    ensures
        s@ == kale_usd_text(),
{
    let mut t: Vec<u8> = Vec::new();
    t.push(75u8);
    t.push(65u8);
    t.push(76u8);
    t.push(69u8);
    t.push(95u8);
    t.push(85u8);
    t.push(83u8);
    t.push(68u8);
    proof {
        assert(t@ =~= kale_usd_text());
    }
    Symbol { text: t }
}

pub fn btc_usd_symbol() -> (s: Symbol)
    ensures
        s@ == btc_usd_text(),
{
    let mut t: Vec<u8> = Vec::new();
    t.push(66u8);
    t.push(84u8);
    t.push(67u8);
    t.push(95u8);
    t.push(85u8);
    t.push(83u8);
    t.push(68u8);
    proof {
        assert(t@ =~= btc_usd_text());
    }
    Symbol { text: t }
}

pub fn usdc_usd_symbol() -> (s: Symbol)
    ensures
        s@ == usdc_usd_text(),
{
    let mut t: Vec<u8> = Vec::new();
    t.push(85u8);
    t.push(83u8);
    t.push(68u8);
    t.push(67u8);
    t.push(95u8);
    t.push(85u8);
    t.push(83u8);
    t.push(68u8);
    proof {
        assert(t@ =~= usdc_usd_text());
    }
    Symbol { text: t }
}

pub fn kale_usdc_symbol() -> (s: Symbol)
    ensures
        s@ == kale_usdc_text(),
{
    let mut t: Vec<u8> = Vec::new();
    t.push(75u8);
    t.push(65u8);
    t.push(76u8);
    t.push(69u8);
    t.push(95u8);
    t.push(85u8);
    t.push(83u8);
    t.push(68u8);
    t.push(67u8);
    proof {
        assert(t@ =~= kale_usdc_text());
    }
    Symbol { text: t }
}

pub fn btc_usdc_symbol() -> (s: Symbol)
    ensures
        s@ == btc_usdc_text(),
{
    let mut t: Vec<u8> = Vec::new();
    t.push(66u8);
    t.push(84u8);
    t.push(67u8);
    t.push(95u8);
    t.push(85u8);
    t.push(83u8);
    t.push(68u8);
    t.push(67u8);
    proof {
        assert(t@ =~= btc_usdc_text());
    }
    Symbol { text: t }
}

pub fn kale_symbol() -> (s: Symbol)
    ensures
        s@ == kale_text(),
{
    let mut t: Vec<u8> = Vec::new();
    t.push(75u8);
    t.push(65u8);
    t.push(76u8);
    t.push(69u8);
    proof {
        assert(t@ =~= kale_text());
    }
    Symbol { text: t }
}

pub fn btc_symbol() -> (s: Symbol)
    ensures
        s@ == btc_text(),
{
    let mut t: Vec<u8> = Vec::new();
    t.push(66u8);
    t.push(84u8);
    t.push(67u8);
    proof {
        assert(t@ =~= btc_text());
    }
    Symbol { text: t }
}

pub fn usdc_symbol() -> (s: Symbol)
    ensures
        s@ == usdc_text(),
{
    let mut t: Vec<u8> = Vec::new();
    t.push(85u8);
    t.push(83u8);
    t.push(68u8);
    t.push(67u8);
    proof {
        assert(t@ =~= usdc_text());
    }
    Symbol { text: t }
}

} // verus!
