//! Métricas do sistema a partir de /proc e /sys: os parsers dos arquivos, as
//! contas de uso de CPU e memória, a formatação para exibição e a navegação entre
//! os painéis, com contratos verificados.

use vstd::prelude::*;

pub mod texto;
pub mod memoria;
pub mod cpu;
pub mod lista;
pub mod rede;
pub mod rede_linux;
pub mod sistema;
pub mod processos;
pub mod collector;
pub mod painel;

verus! {

} // verus!
