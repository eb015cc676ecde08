# syswatch_tui

Monitor de sistema em terminal (CPU, memória, processos, rede e informações do
sistema) para Linux e Android/Termux.

- `src/` é a biblioteca verificada com Verus: leitura dos textos de `/proc/stat`,
  `/proc/meminfo`, `/proc/net/dev`, `ip addr show`, `ifconfig`, `/etc/os-release`,
  `/proc/<pid>/stat` e dos arquivos de `/sys`; o uso de CPU entre duas leituras; a
  formatação de tamanhos e de uptime; a escolha dos 15 processos mais ocupados; a
  navegação entre painéis e o histórico de CPU.
  - `texto`: o que `lines`, `split`, `split_whitespace`, `trim` e `parse` fazem, como
    funções de especificação, e as versões executáveis provadas contra elas.
  - `memoria`, `cpu`, `rede` (`ifconfig`), `rede_linux` (`/proc/net/dev`, `ip addr`),
    `sistema`, `processos`: os parsers e as regras de cada área.
  - `lista`: listas de associação (o mapa nome → valor dos parsers) e suas leis.
  - `collector`: métricas de memória e rede, o coletor, `formatar_bytes` e `formatar_uptime`.
  - `painel`: teclas, histórico, porcentagens, cores e textos das tabelas.
- `app/` é o programa: lê arquivos, roda comandos, guarda porcentagens em ponto
  flutuante e desenha a interface com ratatui e crossterm.
- `tests/` exercita a biblioteca.

Teclas: `1`–`5` escolhem o painel (CPU, Memória, Processos, Rede, Sistema),
`Tab`/`→` vai ao próximo, `←` ao anterior, `q` ou `Ctrl+C` sai.
