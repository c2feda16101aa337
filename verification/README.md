# perl-build

Builds new Perls from source: resolves a version to a release on CPAN, fetches
and unpacks its tarball, applies the `Devel::PatchPerl` fix-ups, and runs
`sh Configure` / `make` / `make install`, or `nmake` against `win32\Makefile`.

The project has two parts.

* `src/` is the library `perl_build`, verified with Verus. It decides
  everything and does nothing: a `Job` hands out one `Request` at a time, and
  goes on with the `Reply`. Paths, documents, headers, listings, compiler
  banners and command lines are plain values here.
* `app/` carries the requests out: files, programs, environment variables and
  the network.

| module | what it holds |
| --- | --- |
| `text`, `paths` | scanning of texts, and paths in the notation of a platform |
| `version`, `msvc`, `archive`, `releases` | `patchlevel.h`, `cl` banners, tarballs and their names, MetaCPAN documents |
| `config`, `commands` | `PerlBuild`, and the command lines of a build |
| `plan` | the course of a job, as a mathematical function |
| `job` | `Job`, which is proved to follow the plan |
| `built` | `Built`, its environment, and the links for a development Perl |
| `laws`, `course` | what holds of the pieces, and of every run of a job |

What is believed without proof is `String::push`, `String::from_utf8_lossy`,
`std::path::is_separator` and `std::path::Path::is_absolute`, each where its
contract stands in `text` and `paths`.

## Environment variables

| variable | effect |
| --- | --- |
| `PERL_BUILD_COMPILE_OPTIONS` | extra arguments appended to `make` or `nmake`; a `CCTYPE=...` here disables the detection of the compiler |
| `PERL_BUILD_INSTALL_OPTIONS` | extra arguments appended to `make install` or `nmake install` |
| `PERL_BUILD_TAR` | the program for tarballs (default `tar`, `gtar` on illumos and Solaris) |
| `PERL_BUILD_NMAKE` | the program for a Visual C++ build (default `nmake`) |

`PERL5LIB` and `PERL5OPT` are removed from the environment of every build
command.
